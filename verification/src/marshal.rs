//! The argument-marshalling arena and the inverse decode path.
//!
//! String arguments cross the boundary to the host as zero-terminated byte
//! buffers; the arena owns every buffer made for one invocation so that the
//! storage outlives the call, and releases them together afterwards. Strings
//! coming back from the host arrive as zero-terminated buffers too and are
//! decoded synchronously: cut at the terminator, then validated as UTF-8.

use vstd::prelude::*;
use vstd::string::StrSliceExecFns;
use vstd::string::StringSliceAdditionalSpecFns;
use vstd::utf8::decode_utf8;
use vstd::utf8::encode_utf8;
use vstd::utf8::encode_utf8_decode_utf8;
use vstd::utf8::encode_utf8_valid_utf8;
use vstd::utf8::valid_utf8;

verus! {

/// Text cannot be marshalled: its encoding holds an interior zero byte, so
/// it cannot live in a zero-terminated buffer.
#[derive(Debug, Clone, PartialEq, Eq)]
pub enum MarshalError {
    InteriorNul,
}

/// Bytes where text was expected are not valid UTF-8. The raw bytes remain
/// with the caller, uninterpreted.
#[derive(Debug, Clone, PartialEq, Eq)]
pub struct Utf8Error;

/// A well-formed zero-terminated buffer: nonempty, ends in the terminator,
/// and holds no interior zero byte.
pub open spec fn c_buffer_wf(b: Seq<u8>) -> bool {
    &&& b.len() > 0
    &&& b[b.len() - 1] == 0
    &&& forall|i: int| 0 <= i < b.len() - 1 ==> b[i] != 0
}

/// The buffer that marshalling `s` produces: its UTF-8 encoding followed by
/// the terminator.
pub open spec fn marshalled_bytes(s: Seq<char>) -> Seq<u8> {
    encode_utf8(s).push(0)
}

/// The longest zero-free prefix of `b`: the bytes a zero-terminated buffer
/// carries.
pub open spec fn c_prefix(b: Seq<u8>) -> Seq<u8>
    decreases b.len(),
{
    if b.len() == 0 || b[0] == 0 {
        Seq::empty()
    } else {
        seq![b[0]] + c_prefix(b.drop_first())
    }
}

/// `c_prefix` is the prefix that ends at the first zero byte (or at the end
/// of the sequence when there is none).
pub proof fn lemma_c_prefix_cut(b: Seq<u8>, k: int)
    requires
        0 <= k <= b.len(),
        forall|i: int| 0 <= i < k ==> b[i] != 0,
        k < b.len() ==> b[k] == 0,
    ensures
        c_prefix(b) == b.subrange(0, k),
    decreases k,
{
    if k == 0 {
        assert(c_prefix(b) =~= b.subrange(0, 0));
    } else {
        let rest = b.drop_first();
        lemma_c_prefix_cut(rest, k - 1);
        assert(c_prefix(b) =~= b.subrange(0, k));
    }
}

/// Law: marshalling round trip. For any text whose encoding is free of zero
/// bytes, the marshalled buffer is well formed, carries exactly the text's
/// encoding, and decoding those bytes yields the original text.
pub proof fn lemma_marshal_round_trip(s: Seq<char>)
    requires
        !encode_utf8(s).contains(0u8),
    ensures
        c_buffer_wf(marshalled_bytes(s)),
        c_prefix(marshalled_bytes(s)) == encode_utf8(s),
        valid_utf8(c_prefix(marshalled_bytes(s))),
        decode_utf8(c_prefix(marshalled_bytes(s))) == s,
{
    let enc = encode_utf8(s);
    let buf = marshalled_bytes(s);
    assert(forall|i: int| 0 <= i < enc.len() ==> buf[i] == enc[i] && enc[i] != 0);
    lemma_c_prefix_cut(buf, enc.len() as int);
    assert(buf.subrange(0, enc.len() as int) =~= enc);
    encode_utf8_valid_utf8(s);
    encode_utf8_decode_utf8(s);
}

/// The per-invocation owner of the zero-terminated buffers made for string
/// arguments. Its view is the sequence of buffers, in the order they were
/// marshalled.
pub struct MarshalArena {
    bufs: Vec<Vec<u8>>,
}

impl View for MarshalArena {
    type V = Seq<Seq<u8>>;

    closed spec fn view(&self) -> Seq<Seq<u8>> {
        Seq::new(self.bufs@.len(), |i: int| self.bufs@[i]@)
    }
}

impl MarshalArena {
    /// A fresh arena owning nothing.
    pub fn new() -> (a: MarshalArena)
        ensures
            a@ =~= Seq::<Seq<u8>>::empty(),
    {
        MarshalArena { bufs: Vec::new() }
    }

    /// Every buffer the arena owns is a well-formed zero-terminated buffer.
    pub open spec fn wf(&self) -> bool {
        forall|i: int| 0 <= i < self@.len() ==> c_buffer_wf(#[trigger] self@[i])
    }

    /// How many buffers the arena owns.
    pub fn len(&self) -> (n: usize)
        ensures
            n == self@.len(),
    {
        self.bufs.len()
    }

    /// The buffer at `i`.
    pub fn buffer(&self, i: usize) -> (b: &Vec<u8>)
        requires
            i < self@.len(),
        ensures
            b@ == self@[i as int],
    {
        &self.bufs[i]
    }

    /// Releases every buffer at once, as the end of an invocation does.
    pub fn release_all(&mut self)
        ensures
            final(self)@ =~= Seq::<Seq<u8>>::empty(),
    {
        self.bufs.clear();
    }

    /// Marshals one string argument: converts the text to its zero-terminated
    /// buffer and takes ownership of it, handing back the buffer's index.
    /// Fails exactly when the text's encoding holds an interior zero byte,
    /// which a zero-terminated buffer cannot carry; the arena is unchanged
    /// then.
    pub fn push_str(&mut self, s: &str) -> (r: Result<usize, MarshalError>)
        ensures
            match r {
                Ok(idx) => {
                    &&& !encode_utf8(s@).contains(0u8)
                    &&& idx == old(self)@.len()
                    &&& final(self)@ =~= old(self)@.push(marshalled_bytes(s@))
                    &&& c_buffer_wf(marshalled_bytes(s@))
                    &&& decode_utf8(c_prefix(marshalled_bytes(s@))) == s@
                },
                Err(e) => {
                    &&& e == MarshalError::InteriorNul
                    &&& encode_utf8(s@).contains(0u8)
                    &&& final(self)@ == old(self)@
                },
            },
            old(self).wf() ==> final(self).wf(),
    {
        let mut bytes: Vec<u8> = s.as_bytes_vec();
        let n = bytes.len();
        let mut i: usize = 0;
        while i < n
            invariant
                n == bytes.len(),
                bytes@ == encode_utf8(s@),
                forall|j: int| 0 <= j < i ==> bytes@[j] != 0,
            decreases n - i,
        {
            if bytes[i] == 0 {
                assert(encode_utf8(s@).contains(0u8)) by {
                    assert(encode_utf8(s@)[i as int] == 0);
                }
                return Err(MarshalError::InteriorNul);
            }
            i += 1;
        }
        assert(!encode_utf8(s@).contains(0u8)) by {
            assert(forall|j: int| 0 <= j < bytes@.len() ==> bytes@[j] != 0);
        }
        bytes.push(0);
        assert(bytes@ =~= marshalled_bytes(s@));
        let idx = self.bufs.len();
        self.bufs.push(bytes);
        proof {
            assert(self@ =~= old(self)@.push(marshalled_bytes(s@)));
            lemma_marshal_round_trip(s@);
        }
        Ok(idx)
    }
}

/// Compares two string slices by value.
pub fn str_eq(a: &str, b: &str) -> (r: bool)
    ensures
        r == (a@ == b@),
{
    let sa: String = a.to_owned();
    let sb: String = b.to_owned();
    sa == sb
}

/// One positional argument for a snippet invocation: a plain word-sized
/// integer (handles and addresses travel this way too) or text.
#[derive(Debug, Clone, PartialEq)]
pub enum SnippetArg {
    Int(i32),
    Text(String),
}

/// What actually crosses the boundary for one argument: the integer itself,
/// or the index of the arena buffer whose address is passed.
#[derive(Debug, Clone, PartialEq, Eq, Structural)]
pub enum MarshalledArg {
    Int(i32),
    Buffer(usize),
}

/// Marshals one snippet argument into `arena`: an integer passes through
/// unchanged; text becomes a zero-terminated buffer owned by the arena.
pub fn marshal_arg(arena: &mut MarshalArena, arg: &SnippetArg) -> (r: Result<
    MarshalledArg,
    MarshalError,
>)
    ensures
        match arg {
            SnippetArg::Int(n) => {
                &&& r == Ok::<MarshalledArg, MarshalError>(MarshalledArg::Int(*n))
                &&& final(arena)@ == old(arena)@
            },
            SnippetArg::Text(s) => match r {
                Ok(m) => {
                    &&& m == MarshalledArg::Buffer(old(arena)@.len() as usize)
                    &&& final(arena)@ =~= old(arena)@.push(marshalled_bytes(s@))
                    &&& !encode_utf8(s@).contains(0u8)
                },
                Err(e) => {
                    &&& e == MarshalError::InteriorNul
                    &&& encode_utf8(s@).contains(0u8)
                    &&& final(arena)@ == old(arena)@
                },
            },
        },
        old(arena).wf() ==> final(arena).wf(),
{
    match arg {
        SnippetArg::Int(n) => Ok(MarshalledArg::Int(*n)),
        SnippetArg::Text(s) => match arena.push_str(s.as_str()) {
            Ok(idx) => Ok(MarshalledArg::Buffer(idx)),
            Err(e) => Err(e),
        },
    }
}

/// The bytes a host-returned zero-terminated buffer carries: everything up
/// to, and not including, the first zero byte.
pub fn c_bytes(buf: &[u8]) -> (r: Vec<u8>)
    ensures
        r@ == c_prefix(buf@),
{
    let mut out: Vec<u8> = Vec::new();
    let n = buf.len();
    let mut i: usize = 0;
    while i < n
        invariant
            n == buf@.len(),
            0 <= i <= n,
            out@ =~= buf@.subrange(0, i as int),
            forall|j: int| 0 <= j < i ==> buf@[j] != 0,
        decreases n - i,
    {
        let b = *vstd::slice::slice_index_get(buf, i);
        if b == 0 {
            proof {
                lemma_c_prefix_cut(buf@, i as int);
            }
            return out;
        }
        out.push(b);
        i += 1;
    }
    proof {
        lemma_c_prefix_cut(buf@, n as int);
    }
    out
}

/// Relies on std's `str::from_utf8`: it succeeds exactly on valid UTF-8 and
/// views the given bytes, unchanged, as text.
#[verifier::external_body]
fn bytes_as_str(b: &[u8]) -> (r: Option<&str>)
    ensures
        match r {
            Some(s) => valid_utf8(b@) && s.spec_bytes() == b@,
            None => !valid_utf8(b@),
        },
{
    match std::str::from_utf8(b) {
        Ok(s) => Some(s),
        Err(_) => None,
    }
}

/// Decodes bytes as UTF-8 text. Fails exactly when the bytes are not valid
/// UTF-8; the caller keeps the raw bytes either way.
pub fn decode_text(b: &[u8]) -> (r: Result<String, Utf8Error>)
    ensures
        match r {
            Ok(s) => valid_utf8(b@) && s@ == decode_utf8(b@),
            Err(_) => !valid_utf8(b@),
        },
{
    match bytes_as_str(b) {
        Some(s) => {
            proof {
                encode_utf8_decode_utf8(s@);
            }
            Ok(s.to_owned())
        },
        None => Err(Utf8Error),
    }
}

/// Decodes a host-returned zero-terminated buffer synchronously, inside the
/// call that obtained it: cuts the bytes at the terminator, then validates
/// them as UTF-8 text.
pub fn decode_host_text(buf: &[u8]) -> (r: Result<String, Utf8Error>)
    ensures
        match r {
            Ok(s) => valid_utf8(c_prefix(buf@)) && s@ == decode_utf8(c_prefix(buf@)),
            Err(_) => !valid_utf8(c_prefix(buf@)),
        },
{
    let cut = c_bytes(buf);
    decode_text(cut.as_slice())
}

} // verus!
