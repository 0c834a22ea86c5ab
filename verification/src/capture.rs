//! Bounded diagnostic capture of the runner's output.
//!
//! Both output streams of the runner are copied into an [`OutputCapture`],
//! which retains only the most recent bytes so that diagnostics can never
//! grow without limit. The capture is trimmed at character boundaries: what
//! it holds is always the longest suffix of everything appended whose UTF-8
//! encoding fits in [`MAX_CAPTURED_BYTES`].

use std::sync::Arc;
use vstd::prelude::*;
use vstd::rwlock::{RwLock, RwLockPredicate};
use vstd::string::*;
use vstd::utf8::*;

verus! {

broadcast use {vstd::utf8::group_utf8_lib, vstd::seq::group_seq_axioms, vstd::slice::group_slice_axioms};

/// The most bytes of output that a capture retains.
pub const MAX_CAPTURED_BYTES: usize = 16 * 1024;

/// The line that precedes the retained output once earlier output was
/// discarded.
pub const TRUNCATION_MARKER: &'static str = "<earlier output truncated>\n";

/// The number of bytes in the UTF-8 encoding of `s`.
pub open spec fn utf8_len(s: Seq<char>) -> nat {
    encode_utf8(s).len()
}

/// Whether the UTF-8 encoding of `s` fits in a capture.
pub open spec fn fits_capture(s: Seq<char>) -> bool {
    utf8_len(s) <= MAX_CAPTURED_BYTES
}

/// The longest suffix of `s` whose UTF-8 encoding fits in a capture.
pub open spec fn retained_suffix(s: Seq<char>) -> Seq<char>
    decreases s.len(),
{
    if s.len() == 0 || fits_capture(s) {
        s
    } else {
        retained_suffix(s.drop_first())
    }
}

/// The abstract contents of a capture: the retained output, and whether
/// earlier output was ever discarded.
pub struct CaptureView {
    pub output: Seq<char>,
    pub was_truncated: bool,
}

impl CaptureView {
    /// The empty capture.
    pub open spec fn empty() -> CaptureView {
        CaptureView { output: Seq::empty(), was_truncated: false }
    }

    /// The retained output fits in the capture.
    pub open spec fn bounded(self) -> bool {
        fits_capture(self.output)
    }

    /// The capture after trimming it to its capacity.
    pub open spec fn trimmed(self) -> CaptureView {
        CaptureView {
            output: retained_suffix(self.output),
            was_truncated: self.was_truncated || !fits_capture(self.output),
        }
    }

    /// The capture after `text` was appended to it.
    pub open spec fn appended(self, text: Seq<char>) -> CaptureView {
        CaptureView { output: self.output + text, was_truncated: self.was_truncated }.trimmed()
    }

    /// The diagnostic text of the capture: the retained output, preceded by
    /// the truncation marker when earlier output was discarded.
    pub open spec fn rendered(self) -> Seq<char> {
        if self.was_truncated {
            TRUNCATION_MARKER@ + self.output
        } else {
            self.output
        }
    }
}

/// A bounded diagnostic buffer that retains only the most recent output.
#[derive(Debug)]
pub struct OutputCapture {
    output: String,
    was_truncated: bool,
}

impl View for OutputCapture {
    type V = CaptureView;

    closed spec fn view(&self) -> CaptureView {
        CaptureView { output: self.output@, was_truncated: self.was_truncated }
    }
}

impl OutputCapture {
    /// The capture holds no more than its capacity.
    pub open spec fn wf(&self) -> bool {
        self@.bounded()
    }

    /// Creates an empty capture.
    pub fn new() -> (capture: Self)
        ensures
            capture@ == CaptureView::empty(),
            capture.wf(),
    {
        let capture = OutputCapture { output: String::new(), was_truncated: false };
        proof {
            assert(encode_utf8(Seq::<char>::empty()) =~= Seq::<u8>::empty());
        }
        capture
    }

    /// Appends `output`, then discards the oldest characters until the
    /// capture fits in its capacity again.
    pub fn append(&mut self, output: &str)
        ensures
            final(self)@ == old(self)@.appended(output@),
            final(self).wf(),
    {
        self.output.append(output);
        self.truncate_to_capacity();
    }

    /// Returns the diagnostic text: the retained output, preceded by the
    /// truncation marker when earlier output was discarded.
    pub fn as_str(&self) -> (text: String)
        ensures
            text@ == self@.rendered(),
            self.wf() ==> utf8_len(text@) <= utf8_len(TRUNCATION_MARKER@) + MAX_CAPTURED_BYTES,
    {
        proof {
            if self.wf() {
                law_rendered_size(self@);
            }
        }
        if self.was_truncated {
            let mut text = TRUNCATION_MARKER.to_owned();
            text.append(self.output.as_str());
            text
        } else {
            self.output.clone()
        }
    }

    /// Discards the oldest characters until the capture fits in its
    /// capacity, and records that earlier output was discarded.
    pub fn truncate_to_capacity(&mut self)
        ensures
            final(self)@ == old(self)@.trimmed(),
            final(self).wf(),
    {
        let ghost all = self.output@;
        let bytes_to_remove = self.output.as_str().as_bytes().len().saturating_sub(MAX_CAPTURED_BYTES);
        if bytes_to_remove == 0 {
            proof {
                lemma_retained_suffix_bounded(all);
            }
            return ;
        }
        let start = first_char_boundary_at_or_after(self.output.as_str(), bytes_to_remove);
        let kept = self.output.as_str().split_at(start).1.to_owned();
        proof {
            lemma_boundary_suffix(all, bytes_to_remove as int, start as int);
            lemma_retained_suffix_bounded(all);
            encode_utf8_decode_utf8(kept@);
            encode_utf8_decode_utf8(retained_suffix(all));
        }
        self.output = kept;
        self.was_truncated = true;
    }
}

impl OutputCapture {
    /// Appends a chunk of raw output, decoding it as UTF-8 and replacing
    /// invalid sequences with U+FFFD.
    pub fn append_lossy(&mut self, chunk: &[u8])
        ensures
            final(self)@ == old(self)@.appended(utf8_lossy(chunk@)),
            valid_utf8(chunk@) ==> final(self)@ == old(self)@.appended(decode_utf8(chunk@)),
            final(self).wf(),
    {
        let text = decode_lossy(chunk);
        self.append(text.as_str());
    }
}

/// The text that `String::from_utf8_lossy` decodes from `bytes`.
pub uninterp spec fn utf8_lossy(bytes: Seq<u8>) -> Seq<char>;

/// Trusted: `String::from_utf8_lossy` of std, whose documentation says that
/// a valid UTF-8 sequence comes back as the text it encodes; what it makes of
/// an invalid sequence (each one replaced by U+FFFD) is only named here.
#[verifier::external_body]
fn decode_lossy(bytes: &[u8]) -> (text: String)
    ensures
        text@ == utf8_lossy(bytes@),
        valid_utf8(bytes@) ==> text@ == decode_utf8(bytes@),
{
    String::from_utf8_lossy(bytes).into_owned()
}

/// The predicate of the lock around a shared capture: the guarded capture
/// stays within its capacity.
pub struct BoundedCapture;

impl RwLockPredicate<OutputCapture> for BoundedCapture {
    open spec fn inv(self, capture: OutputCapture) -> bool {
        capture.wf()
    }
}

/// A capture shared between the task that fills it and the handle that
/// reads it for diagnostics.
pub type SharedCapture = Arc<RwLock<OutputCapture, BoundedCapture>>;

/// Creates an empty shared capture. The lock states only its predicate, so
/// that the capture starts empty is not part of this contract.
pub fn shared_capture() -> (capture: SharedCapture)
    ensures
        capture.pred() == BoundedCapture,
{
    Arc::new(RwLock::new(OutputCapture::new(), Ghost(BoundedCapture)))
}

/// Appends `text` to a shared capture; the capture stays within its
/// capacity. The lock states only its predicate, so this contract says
/// nothing of what the capture holds afterwards; what one append does is
/// stated by [`OutputCapture::append`], which this calls under the lock.
pub fn append(capture: &SharedCapture, text: &str) {
    let (mut current, handle) = capture.acquire_write();
    current.append(text);
    handle.release_write(current);
}

/// Appends a chunk of raw output to a shared capture, decoding it as UTF-8
/// with invalid sequences replaced. As with [`append`], the contract says
/// nothing of what the capture holds afterwards; what the append does is
/// stated by [`OutputCapture::append_lossy`], which this calls under the
/// lock.
pub fn append_chunk(capture: &SharedCapture, chunk: &[u8]) {
    let (mut current, handle) = capture.acquire_write();
    current.append_lossy(chunk);
    handle.release_write(current);
}

/// Returns the current diagnostic text of a shared capture: the rendering
/// of a capture that is within its capacity, so never more than the
/// truncation marker followed by the capacity. Which capture that is (what
/// was appended before) is not stated, as the lock states only its
/// predicate.
pub fn snapshot(capture: &SharedCapture) -> (text: String)
    ensures
        exists|held: CaptureView| held.bounded() && text@ == held.rendered(),
        utf8_len(text@) <= utf8_len(TRUNCATION_MARKER@) + MAX_CAPTURED_BYTES,
{
    let handle = capture.acquire_read();
    let held = handle.borrow();
    let text = held.as_str();
    assert(held@.bounded() && text@ == held@.rendered());
    proof {
        law_rendered_size(held@);
    }
    handle.release_read();
    text
}

impl Default for OutputCapture {
    fn default() -> (capture: Self)
        ensures
            capture@ == CaptureView::empty(),
            capture.wf(),
    {
        OutputCapture::new()
    }
}

/// In valid UTF-8 a character boundary lies within three bytes after any
/// position, as no character takes more than four bytes.
proof fn lemma_boundary_within_three(bytes: Seq<u8>, index: int)
    requires
        valid_utf8(bytes),
        0 <= index <= bytes.len(),
    ensures
        exists|b: int|
            index <= b <= index + 3 && b <= bytes.len() && #[trigger] is_char_boundary(bytes, b),
    decreases bytes.len(),
{
    if index == 0 {
        assert(is_char_boundary(bytes, 0));
    } else {
        let width = length_of_first_scalar(bytes);
        let rest = pop_first_scalar(bytes);
        assert(1 <= width <= 4 && width <= bytes.len());
        assert(rest.len() == bytes.len() - width);
        if index < width {
            is_char_boundary_start_end_of_seq(rest);
            assert(is_char_boundary(rest, width - width));
            assert(is_char_boundary(bytes, width));
        } else {
            lemma_boundary_within_three(rest, index - width);
            let b = choose|b: int|
                index - width <= b <= index - width + 3 && b <= rest.len()
                    && #[trigger] is_char_boundary(rest, b);
            if b == 0 {
                assert(is_char_boundary(bytes, width));
            } else {
                assert(is_char_boundary(bytes, b + width));
            }
        }
    }
}

/// Returns the first character boundary of `value` at or after byte `index`.
pub fn first_char_boundary_at_or_after(value: &str, index: usize) -> (boundary: usize)
    requires
        index <= value.spec_bytes().len(),
    ensures
        index <= boundary <= value.spec_bytes().len(),
        boundary - index <= 3,
        is_char_boundary(value.spec_bytes(), boundary as int),
        forall|i: int| index <= i < boundary ==> !is_char_boundary(value.spec_bytes(), i),
{
    let ghost bytes = value.spec_bytes();
    proof {
        is_char_boundary_start_end_of_seq(bytes);
    }
    let len = value.as_bytes().len();
    let mut index = index;
    let ghost start = index;
    while !value.is_char_boundary(index)
        invariant
            bytes == value.spec_bytes(),
            valid_utf8(bytes),
            is_char_boundary(bytes, bytes.len() as int),
            start <= index <= bytes.len(),
            len == bytes.len(),
            forall|i: int| start <= i < index ==> !is_char_boundary(bytes, i),
        decreases bytes.len() - index,
    {
        index += 1;
    }
    proof {
        lemma_boundary_within_three(bytes, start as int);
    }
    index
}

/// Dropping a character that does not fit only ever shortens the retained
/// suffix: everything it keeps fits, and it is a suffix of its input.
pub proof fn lemma_retained_suffix_bounded(s: Seq<char>)
    ensures
        fits_capture(retained_suffix(s)),
        retained_suffix(s).len() <= s.len(),
        retained_suffix(s) =~= s.subrange(s.len() - retained_suffix(s).len(), s.len() as int),
        fits_capture(s) ==> retained_suffix(s) == s,
    decreases s.len(),
{
    if s.len() == 0 {
        assert(encode_utf8(s) =~= Seq::<u8>::empty());
    } else if fits_capture(s) {
    } else {
        lemma_retained_suffix_bounded(s.drop_first());
        let r = retained_suffix(s.drop_first());
        assert(r =~= s.subrange(s.len() - r.len(), s.len() as int));
    }
}

/// The UTF-8 encoding of a non-empty sequence is the encoding of its first
/// character followed by the encoding of the rest.
proof fn lemma_encode_first(s: Seq<char>)
    requires
        s.len() > 0,
    ensures
        encode_utf8(s) == encode_scalar(s[0] as u32) + encode_utf8(s.drop_first()),
        length_of_first_scalar(encode_utf8(s)) == encode_scalar(s[0] as u32).len(),
        1 <= encode_scalar(s[0] as u32).len() <= 4,
        pop_first_scalar(encode_utf8(s)) == encode_utf8(s.drop_first()),
        valid_utf8(encode_utf8(s)),
{
    encode_utf8_first_scalar(s);
    let b = encode_utf8(s);
    let w = encode_scalar(s[0] as u32).len() as int;
    assert(b.subrange(w, b.len() as int) =~= encode_utf8(s.drop_first()));
}

/// Trimming at the first character boundary at or after the excess bytes
/// keeps exactly the encoding of the retained suffix.
proof fn lemma_boundary_suffix(s: Seq<char>, excess: int, start: int)
    requires
        excess > 0,
        excess == utf8_len(s) - MAX_CAPTURED_BYTES,
        excess <= start <= utf8_len(s),
        is_char_boundary(encode_utf8(s), start),
        forall|i: int| excess <= i < start ==> !is_char_boundary(encode_utf8(s), i),
    ensures
        encode_utf8(s).subrange(start, utf8_len(s) as int) == encode_utf8(retained_suffix(s)),
    decreases s.len(),
{
    let b = encode_utf8(s);
    if s.len() == 0 {
        assert(b =~= Seq::<u8>::empty());
    } else {
        lemma_encode_first(s);
        let tail = s.drop_first();
        let tb = encode_utf8(tail);
        let w = encode_scalar(s[0] as u32).len() as int;
        assert(!fits_capture(s));
        assert(retained_suffix(s) == retained_suffix(tail));
        assert forall|i: int| 0 < i <= b.len() implies is_char_boundary(b, i) == is_char_boundary(
            tb,
            i - w,
        ) by {
            assert(pop_first_scalar(b) == tb);
        }
        if excess <= w {
            assert(is_char_boundary(tb, 0));
            if start > w {
                assert(is_char_boundary(b, w));
                assert(false);
            }
            if start < w {
                assert(!is_char_boundary(tb, start - w));
                assert(false);
            }
            assert(b.subrange(start, b.len() as int) =~= tb);
            lemma_retained_suffix_bounded(tail);
        } else {
            assert forall|i: int| excess - w <= i < start - w implies !is_char_boundary(tb, i) by {
                assert(!is_char_boundary(b, i + w));
            }
            assert(is_char_boundary(tb, start - w));
            lemma_boundary_suffix(tail, excess - w, start - w);
            assert(b.subrange(start, b.len() as int) =~= tb.subrange(start - w, tb.len() as int));
        }
    }
}

/// The UTF-8 encoding of a concatenation is the concatenation of the
/// encodings.
pub proof fn lemma_encode_concat(a: Seq<char>, b: Seq<char>)
    ensures
        encode_utf8(a + b) == encode_utf8(a) + encode_utf8(b),
    decreases a.len(),
{
    if a.len() == 0 {
        assert(a + b =~= b);
        assert(encode_utf8(a) =~= Seq::<u8>::empty());
        assert(encode_utf8(a) + encode_utf8(b) =~= encode_utf8(b));
    } else {
        lemma_encode_concat(a.drop_first(), b);
        assert((a + b).drop_first() =~= a.drop_first() + b);
        assert((a + b)[0] == a[0]);
        assert(encode_utf8(a + b) =~= encode_scalar(a[0] as u32) + (encode_utf8(a.drop_first())
            + encode_utf8(b)));
    }
}

/// A capture stays within its capacity whatever is appended to it.
pub proof fn law_append_stays_bounded(capture: CaptureView, text: Seq<char>)
    ensures
        capture.appended(text).bounded(),
{
    lemma_retained_suffix_bounded(capture.output + text);
}

/// What a capture keeps is the most recent output: a suffix of everything
/// it held followed by what was appended, and the whole appended text
/// whenever that text alone fits in the capacity.
pub proof fn law_append_keeps_latest(capture: CaptureView, text: Seq<char>)
    ensures
        ({
            let all = capture.output + text;
            let kept = capture.appended(text).output;
            &&& kept.len() <= all.len()
            &&& kept == all.subrange(all.len() - kept.len(), all.len() as int)
            &&& fits_capture(text) ==> kept.len() >= text.len() && text == kept.subrange(
                kept.len() - text.len(),
                kept.len() as int,
            )
        }),
{
    let all = capture.output + text;
    lemma_retained_suffix_bounded(all);
    if fits_capture(text) {
        assert(all.subrange(capture.output.len() as int, all.len() as int) =~= text);
        lemma_retained_suffix_longest(all, capture.output.len() as int);
        let kept = retained_suffix(all);
        assert(text =~= kept.subrange(kept.len() - text.len(), kept.len() as int));
    }
}

/// Nothing is discarded while everything appended still fits.
pub proof fn law_append_without_overflow(capture: CaptureView, text: Seq<char>)
    requires
        fits_capture(capture.output + text),
    ensures
        capture.appended(text) == (CaptureView {
            output: capture.output + text,
            was_truncated: capture.was_truncated,
        }),
{
}

/// The diagnostic text of a bounded capture is at most the truncation
/// marker followed by the capacity, and starts with the marker exactly when
/// earlier output was discarded.
pub proof fn law_rendered_size(capture: CaptureView)
    requires
        capture.bounded(),
    ensures
        utf8_len(capture.rendered()) <= utf8_len(TRUNCATION_MARKER@) + MAX_CAPTURED_BYTES,
        capture.was_truncated ==> capture.rendered().subrange(0, TRUNCATION_MARKER@.len() as int)
            == TRUNCATION_MARKER@,
{
    if capture.was_truncated {
        lemma_encode_concat(TRUNCATION_MARKER@, capture.output);
        assert(capture.rendered().subrange(0, TRUNCATION_MARKER@.len() as int)
            =~= TRUNCATION_MARKER@);
    }
}

/// Every suffix of `s` that fits is no longer than the retained suffix.
proof fn lemma_retained_suffix_longest(s: Seq<char>, k: int)
    requires
        0 <= k <= s.len(),
        fits_capture(s.subrange(k, s.len() as int)),
    ensures
        retained_suffix(s).len() >= s.len() - k,
    decreases s.len(),
{
    if s.len() == 0 || fits_capture(s) {
    } else {
        if k == 0 {
            assert(s.subrange(0, s.len() as int) =~= s);
        } else {
            assert(s.drop_first().subrange(k - 1, s.len() - 1) =~= s.subrange(k, s.len() as int));
            lemma_retained_suffix_longest(s.drop_first(), k - 1);
        }
    }
}

/// Everything in `texts`, one after the other.
pub open spec fn concat_all(texts: Seq<Seq<char>>) -> Seq<char>
    decreases texts.len(),
{
    if texts.len() == 0 {
        seq![]
    } else {
        concat_all(texts.drop_last()) + texts.last()
    }
}

/// A new capture after each text of `texts` was appended to it, in order.
pub open spec fn captured_after(texts: Seq<Seq<char>>) -> CaptureView
    decreases texts.len(),
{
    if texts.len() == 0 {
        CaptureView::empty()
    } else {
        captured_after(texts.drop_last()).appended(texts.last())
    }
}

/// Trimming what was already trimmed, with more text after it, keeps what
/// trimming everything at once keeps; and the capture has overflowed
/// exactly when everything together does not fit.
proof fn lemma_retained_suffix_appended(a: Seq<char>, t: Seq<char>)
    ensures
        retained_suffix(retained_suffix(a) + t) == retained_suffix(a + t),
        (!fits_capture(a) || !fits_capture(retained_suffix(a) + t)) == !fits_capture(a + t),
{
    let r = retained_suffix(a);
    let x = r + t;
    let s = a + t;
    lemma_retained_suffix_bounded(a);
    lemma_encode_concat(a, t);
    lemma_encode_concat(r, t);
    assert(x =~= s.subrange(a.len() - r.len(), s.len() as int));
    let y = retained_suffix(s);
    let z = retained_suffix(x);
    lemma_retained_suffix_bounded(s);
    lemma_retained_suffix_bounded(x);
    let ly = y.len() as int;
    let lz = z.len() as int;
    assert(z =~= s.subrange(s.len() - lz, s.len() as int));
    lemma_retained_suffix_longest(s, s.len() - lz);
    if ly <= x.len() {
        assert(y =~= x.subrange(x.len() - ly, x.len() as int));
        lemma_retained_suffix_longest(x, x.len() - ly);
    } else {
        let k = ly - t.len();
        let front = a.subrange(a.len() - k, a.len() as int);
        assert(y =~= front + t);
        lemma_encode_concat(front, t);
        lemma_retained_suffix_longest(a, a.len() - k);
        assert(false);
    }
    assert(y =~= z);
}

/// After any run of appends to a new capture, it holds the longest suffix
/// of everything appended whose UTF-8 encoding fits in the capacity, and it
/// shows the truncation marker exactly when everything appended does not
/// fit.
pub proof fn law_capture_of_appends(texts: Seq<Seq<char>>)
    ensures
        captured_after(texts) == (CaptureView {
            output: retained_suffix(concat_all(texts)),
            was_truncated: !fits_capture(concat_all(texts)),
        }),
    decreases texts.len(),
{
    if texts.len() == 0 {
        assert(encode_utf8(Seq::<char>::empty()) =~= Seq::<u8>::empty());
    } else {
        law_capture_of_appends(texts.drop_last());
        lemma_retained_suffix_appended(concat_all(texts.drop_last()), texts.last());
    }
}

} // verus!
