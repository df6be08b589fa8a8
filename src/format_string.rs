//! A text builder over a fixed-size byte region that detects overflow
//! instead of growing.

use vstd::prelude::*;
use vstd::utf8::*;
use vstd::string::*;

verus! {

/// The UTF-8 encoding of a concatenation is the concatenation of the encodings.
pub proof fn lemma_encode_utf8_append(a: Seq<char>, b: Seq<char>)
    ensures
        encode_utf8(a + b) == encode_utf8(a) + encode_utf8(b),
    decreases a.len(),
{
    if a.len() == 0 {
        assert(a + b =~= b);
        assert(encode_utf8(a) + encode_utf8(b) =~= encode_utf8(b));
    } else {
        assert((a + b).drop_first() =~= a.drop_first() + b);
        assert((a + b)[0] == a[0]);
        lemma_encode_utf8_append(a.drop_first(), b);
        assert(encode_utf8(a + b) =~= encode_utf8(a) + encode_utf8(b));
    }
}

/// Why a formatting operation failed: the text did not fit in the buffer.
#[derive(Debug, Clone, Copy, PartialEq, Eq, Structural)]
pub struct FormatError;

/// Writes text into a caller-supplied byte region.
///
/// The cursor `used` advances by the full length of every fragment, even one
/// that was cut short or came after an overflow, so that a final check
/// against the capacity detects any overflow that happened along the way.
pub struct FormatString {
    buffer: Vec<u8>,
    /// Bytes written so far, saturating at `usize::MAX`; exceeds
    /// `buffer.len()` only after an overflow.
    used: usize,
    /// Every fragment handed to `write_str`, concatenated.
    text: Ghost<Seq<char>>,
}

/// `a + b`, or `usize::MAX` when the sum does not fit a `usize`.
pub open spec fn saturating_sum(a: nat, b: nat) -> nat {
    if a + b <= usize::MAX {
        a + b
    } else {
        usize::MAX as nat
    }
}

impl FormatString {
    /// The concatenation of all fragments written so far.
    pub closed spec fn written(&self) -> Seq<char> {
        self.text@
    }

    /// The bytes of the region.
    pub closed spec fn bytes(&self) -> Seq<u8> {
        self.buffer@
    }

    /// The cursor: the bytes written so far, saturating at `usize::MAX`.
    pub closed spec fn cursor(&self) -> nat {
        self.used as nat
    }

    /// The size of the byte region, fixed at construction.
    pub open spec fn capacity(&self) -> nat {
        self.bytes().len()
    }

    /// The bytes that the written text takes.
    pub open spec fn written_len(&self) -> nat {
        encode_utf8(self.written()).len()
    }

    /// The written text fits in the byte region.
    pub open spec fn fits(&self) -> bool {
        self.written_len() <= self.capacity()
    }

    /// The cursor is the byte length of the written text (saturated), and
    /// while the text fits the region starts with its bytes.
    pub closed spec fn wf(&self) -> bool {
        &&& self.buffer@.len() < usize::MAX
        &&& self.used as nat == saturating_sum(self.written_len(), 0)
        &&& self.fits() ==> self.buffer@.subrange(0, self.used as int) == encode_utf8(self.text@)
    }

    /// Starts an empty text over `buffer`, whose length is the capacity. The
    /// region is taken as it is: nothing is written to it.
    pub fn new(buffer: Vec<u8>) -> (r: Self)
        requires
            buffer@.len() < usize::MAX,
        ensures
            r.wf(),
            r.written() == Seq::<char>::empty(),
            r.bytes() == buffer@,
            r.cursor() == 0,
    {
        let r = FormatString { buffer, used: 0, text: Ghost(Seq::empty()) };
        assert(r.buffer@.subrange(0, 0) =~= encode_utf8(Seq::<char>::empty()));
        r
    }

    /// The cursor: the bytes written so far, saturating at `usize::MAX`.
    pub fn used(&self) -> (r: usize)
        requires
            self.wf(),
        ensures
            r == self.cursor(),
            r == saturating_sum(self.written_len(), 0),
    {
        self.used
    }

    /// Appends `s`. While the text so far fits, copies as many bytes of `s`
    /// as still fit, right after it, and leaves every other byte alone; after
    /// an overflow leaves the region alone. The cursor advances by the length
    /// of `s` in either case. Fails when any byte of the text written so far,
    /// `s` included, lies beyond the capacity.
    pub fn write_str(&mut self, s: &str) -> (r: Result<(), FormatError>)
        requires
            old(self).wf(),
        ensures
            final(self).wf(),
            final(self).written() == old(self).written() + s@,
            final(self).cursor() == saturating_sum(old(self).cursor(), s.spec_bytes().len()),
            final(self).capacity() == old(self).capacity(),
            r is Ok <==> final(self).fits(),
            !old(self).fits() ==> final(self).bytes() == old(self).bytes(),
            old(self).fits() ==> forall|j: int|
                0 <= j < old(self).capacity() ==> #[trigger] final(self).bytes()[j] == if old(
                    self,
                ).written_len() <= j < old(self).written_len() + s.spec_bytes().len() {
                    s.spec_bytes()[j - old(self).written_len()]
                } else {
                    old(self).bytes()[j]
                },
    {
        proof {
            lemma_encode_utf8_append(self.text@, s@);
        }
        let ghost old_text = self.text@;
        self.text = Ghost(self.text@ + s@);
        let raw: &[u8] = s.as_bytes();
        if self.used > self.buffer.len() {
            self.used = self.used.saturating_add(raw.len());
            return Err(FormatError);
        }
        let remaining: usize = self.buffer.len() - self.used;
        let write_num: usize = if raw.len() < remaining { raw.len() } else { remaining };
        let start: usize = self.used;
        let end: usize = start + write_num;
        let mut i: usize = 0;
        while i < write_num
            invariant
                0 <= i <= write_num,
                self.text@ == old_text + s@,
                old_text == old(self).text@,
                self.used == start,
                raw@ == s.spec_bytes(),
                start + write_num == end,
                end <= self.buffer@.len(),
                write_num <= raw@.len(),
                self.buffer@.len() == old(self).buffer@.len(),
                forall|j: int| 0 <= j < start ==> self.buffer@[j] == old(self).buffer@[j],
                forall|j: int| 0 <= j < i ==> self.buffer@[start + j] == raw@[j],
                forall|j: int| start + i <= j < self.buffer@.len() ==> self.buffer@[j] == old(self).buffer@[j],
            decreases write_num - i,
        {
            self.buffer.set(start + i, raw[i]);
            i = i + 1;
        }
        self.used = start.saturating_add(raw.len());
        proof {
            assert(encode_utf8(self.text@) == encode_utf8(old_text) + raw@);
            if write_num == raw.len() {
                assert(self.buffer@.subrange(0, self.used as int) =~= encode_utf8(self.text@));
            }
            assert forall|j: int| 0 <= j < old(self).capacity() implies #[trigger] self.bytes()[j] == if old(
                self,
            ).written_len() <= j < old(self).written_len() + s.spec_bytes().len() {
                s.spec_bytes()[j - old(self).written_len()]
            } else {
                old(self).bytes()[j]
            } by {
                if start <= j < end {
                    assert(self.buffer@[start + (j - start)] == raw@[j - start]);
                }
            }
        }
        if write_num < raw.len() {
            Err(FormatError)
        } else {
            Ok(())
        }
    }

    /// The text written, if it fits in the capacity.
    pub fn as_str(&self) -> (r: Option<String>)
        requires
            self.wf(),
        ensures
            r is Some <==> self.fits(),
            r is Some ==> r->0@ == self.written(),
    {
        if self.used <= self.buffer.len() {
            let mut bytes: Vec<u8> = Vec::new();
            let mut i: usize = 0;
            while i < self.used
                invariant
                    0 <= i <= self.used <= self.buffer@.len(),
                    bytes@ == self.buffer@.subrange(0, i as int),
                decreases self.used - i,
            {
                bytes.push(self.buffer[i]);
                i = i + 1;
                assert(bytes@ =~= self.buffer@.subrange(0, i as int));
            }
            proof {
                encode_utf8_valid_utf8(self.text@);
                encode_utf8_decode_utf8(self.text@);
            }
            Some(text_from_utf8(bytes))
        } else {
            None
        }
    }

    /// Hands the region back to its owner.
    pub fn into_inner(self) -> (r: Vec<u8>)
        ensures
            r@ == self.bytes(),
    {
        self.buffer
    }
}

/// Relies on `String::from_utf8`: on valid UTF-8 it succeeds and the string
/// holds exactly the characters that the bytes encode.
#[verifier::external_body]
fn text_from_utf8(bytes: Vec<u8>) -> (r: String)
    requires
        valid_utf8(bytes@),
    ensures
        r@ == decode_utf8(bytes@),
{
    String::from_utf8(bytes).unwrap()
}

/// Writes each of `parts` in turn into `buffer` and returns the text, or
/// `FormatError` when the parts together take more bytes than `buffer` has.
/// Either way `buffer` then starts with as many bytes of the text as fit,
/// and its other bytes are left as they were.
pub fn show(buffer: &mut Vec<u8>, parts: &[&str]) -> (r: Result<String, FormatError>)
    requires
        old(buffer)@.len() < usize::MAX,
    ensures
        r is Ok <==> total_bytes(parts@) <= old(buffer)@.len(),
        r is Ok ==> r->Ok_0@ == concat_parts(parts@),
        final(buffer)@.len() == old(buffer)@.len(),
        forall|j: int|
            0 <= j < old(buffer)@.len() ==> #[trigger] final(buffer)@[j] == if j < total_bytes(
                parts@,
            ) {
                encode_utf8(concat_parts(parts@))[j]
            } else {
                old(buffer)@[j]
            },
{
    proof {
        lemma_bytes_of_concat(parts@);
    }
    let ghost orig = buffer@;
    let ghost cap = buffer@.len();
    let mut region: Vec<u8> = Vec::new();
    std::mem::swap(buffer, &mut region);
    let mut w = FormatString::new(region);
    let mut i: usize = 0;
    while i < parts.len()
        invariant
            0 <= i <= parts@.len(),
            w.wf(),
            w.capacity() == cap,
            cap == orig.len(),
            cap < usize::MAX,
            w.written() == concat_parts(parts@.subrange(0, i as int)),
            forall|j: int|
                0 <= j < cap ==> #[trigger] w.bytes()[j] == if j < w.written_len() {
                    encode_utf8(w.written())[j]
                } else {
                    orig[j]
                },
        decreases parts@.len() - i,
    {
        let ghost before = w.written();
        let ghost before_bytes = w.bytes();
        let ghost was_fit = w.fits();
        let _ = w.write_str(parts[i]);
        proof {
            let next = parts@.subrange(0, i + 1);
            assert(next.drop_last() =~= parts@.subrange(0, i as int));
            lemma_encode_utf8_append(before, parts@[i as int]@);
            let sb = parts@[i as int].spec_bytes();
            assert(encode_utf8(w.written()) == encode_utf8(before) + sb);
            assert forall|j: int| 0 <= j < cap implies #[trigger] w.bytes()[j] == if j < w.written_len() {
                encode_utf8(w.written())[j]
            } else {
                orig[j]
            } by {
                if was_fit {
                    if j < encode_utf8(before).len() {
                        assert(before_bytes[j] == encode_utf8(before)[j]);
                    }
                } else {
                    assert(before_bytes[j] == encode_utf8(before)[j]);
                }
            }
        }
        i = i + 1;
    }
    assert(parts@.subrange(0, parts@.len() as int) =~= parts@);
    let r = match w.as_str() {
        Some(t) => Ok(t),
        None => Err(FormatError),
    };
    *buffer = w.into_inner();
    r
}

/// The characters of all `parts`, in order.
pub open spec fn concat_parts(parts: Seq<&str>) -> Seq<char>
    decreases parts.len(),
{
    if parts.len() == 0 {
        Seq::empty()
    } else {
        concat_parts(parts.drop_last()) + parts.last()@
    }
}

/// The bytes that all `parts` take together: the sum of their byte lengths.
pub open spec fn total_bytes(parts: Seq<&str>) -> nat
    decreases parts.len(),
{
    if parts.len() == 0 {
        0
    } else {
        total_bytes(parts.drop_last()) + parts.last().spec_bytes().len()
    }
}

/// Writing fragments one after another takes, in all, the sum of their byte
/// lengths: so the written text fits a capacity exactly when that sum does.
pub proof fn lemma_bytes_of_concat(parts: Seq<&str>)
    ensures
        encode_utf8(concat_parts(parts)).len() == total_bytes(parts),
    decreases parts.len(),
{
    if parts.len() > 0 {
        lemma_bytes_of_concat(parts.drop_last());
        lemma_encode_utf8_append(concat_parts(parts.drop_last()), parts.last()@);
    }
}

pub proof fn lemma_concat_parts_push(parts: Seq<&str>, s: &str)
    ensures
        concat_parts(parts.push(s)) == concat_parts(parts) + s@,
{
    assert(parts.push(s).drop_last() =~= parts);
}

} // verus!
