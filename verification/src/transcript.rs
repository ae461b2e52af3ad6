//! The rolling transcript: recognised speech, bounded to its most recent
//! characters.

use vstd::prelude::*;
use vstd::string::*;
use crate::text::{last_chars, lemma_last_chars_append, same_text, tail, trim_str, trimmed};

verus! {

/// The text a recogniser reports for a stretch of silence.
pub open spec fn blank_audio() -> Seq<char> {
    "[BLANK_AUDIO]"@
}

/// Whether a recognised segment carries speech: it is neither blank nor the
/// silence marker once surrounding whitespace is removed.
pub open spec fn is_speech(segment: Seq<char>) -> bool {
    trimmed(segment) != blank_audio() && trimmed(segment).len() > 0
}

/// The segments that carry speech, in order, each followed by a newline.
pub open spec fn joined_speech(segments: Seq<Seq<char>>) -> Seq<char>
    decreases segments.len(),
{
    if segments.len() == 0 {
        Seq::empty()
    } else if is_speech(segments.last()) {
        joined_speech(segments.drop_last()) + segments.last() + seq!['\n']
    } else {
        joined_speech(segments.drop_last())
    }
}

/// The character sequences held by a list of strings.
pub open spec fn texts(strings: Seq<String>) -> Seq<Seq<char>> {
    Seq::new(strings.len(), |i: int| strings[i]@)
}

/// What a transcript bounded to `max_chars` holds after `piece` is recorded:
/// blank pieces leave it as it is, others are appended and the oldest
/// characters dropped.
pub open spec fn recorded(held: Seq<char>, piece: Seq<char>, max_chars: nat) -> Seq<char> {
    if trimmed(piece).len() == 0 {
        held
    } else {
        last_chars(held + piece, max_chars)
    }
}

/// What a transcript bounded to `max_chars` holds after each of `pieces` has
/// been appended in turn to `held`.
pub open spec fn appended_all(held: Seq<char>, pieces: Seq<Seq<char>>, max_chars: nat) -> Seq<
    char,
>
    decreases pieces.len(),
{
    if pieces.len() == 0 {
        held
    } else {
        last_chars(appended_all(held, pieces.drop_last(), max_chars) + pieces.last(), max_chars)
    }
}

/// All of `pieces` one after another, with nothing dropped.
pub open spec fn concatenated(pieces: Seq<Seq<char>>) -> Seq<char>
    decreases pieces.len(),
{
    if pieces.len() == 0 {
        Seq::empty()
    } else {
        concatenated(pieces.drop_last()) + pieces.last()
    }
}

/// Whether `segment` carries speech.
pub fn segment_is_speech(segment: &str) -> (r: bool)
    ensures
        r == is_speech(segment@),
{
    let core = trim_str(segment);
    !same_text(core, "[BLANK_AUDIO]") && !core.is_empty()
}

/// Joins the segments that carry speech, each followed by a newline.
pub fn join_speech(segments: &Vec<String>) -> (r: String)
    ensures
        r@ == joined_speech(texts(segments@)),
{
    let mut result = String::new();
    let mut i: usize = 0;
    while i < segments.len()
        invariant
            i <= segments.len(),
            result@ == joined_speech(texts(segments@).take(i as int)),
        decreases segments.len() - i,
    {
        proof {
            let next = texts(segments@).take(i + 1);
            assert(next.drop_last() =~= texts(segments@).take(i as int));
            assert(next.last() == segments@[i as int]@);
        }
        if segment_is_speech(segments[i].as_str()) {
            result.append(segments[i].as_str());
            result.append("\n");
            proof {
                reveal_strlit("\n");
                assert("\n"@ =~= seq!['\n']);
            }
        }
        i += 1;
    }
    proof {
        assert(texts(segments@).take(segments@.len() as int) =~= texts(segments@));
    }
    result
}

/// Recognised speech, bounded to its most recent `max_chars` characters.
pub struct RollingTranscript {
    text: String,
    max_chars: usize,
}

impl View for RollingTranscript {
    type V = Seq<char>;

    /// The characters held.
    closed spec fn view(&self) -> Seq<char> {
        self.text@
    }
}

impl RollingTranscript {
    /// The bound on the number of characters held.
    pub closed spec fn limit(&self) -> nat {
        self.max_chars as nat
    }

    /// The transcript holds no more characters than its bound.
    pub closed spec fn wf(&self) -> bool {
        self.text@.len() <= self.max_chars
    }

    /// A bounded transcript never shows more than its bound.
    pub proof fn lemma_bounded(&self)
        requires
            self.wf(),
        ensures
            self@.len() <= self.limit(),
    {
    }

    /// An empty transcript bounded to `max_chars` characters.
    pub fn new(max_chars: usize) -> (r: Self)
        ensures
            r.wf(),
            r@ == Seq::<char>::empty(),
            r.limit() == max_chars,
    {
        RollingTranscript { text: String::new(), max_chars }
    }

    /// Appends `piece` and drops the oldest characters beyond the bound.
    pub fn append(&mut self, piece: &str)
        requires
            old(self).wf(),
        ensures
            final(self).wf(),
            final(self).limit() == old(self).limit(),
            final(self)@ == last_chars(old(self)@ + piece@, old(self).limit()),
            final(self)@.len() <= final(self).limit(),
    {
        self.text.append(piece);
        let kept = tail(self.text.as_str(), self.max_chars);
        self.text = kept;
    }

    /// Forgets everything recorded so far.
    pub fn clear(&mut self)
        requires
            old(self).wf(),
        ensures
            final(self).wf(),
            final(self).limit() == old(self).limit(),
            final(self)@ == Seq::<char>::empty(),
    {
        self.text = String::new();
    }

    /// A copy of the characters held.
    pub fn snapshot(&self) -> (r: String)
        ensures
            r@ == self@,
    {
        self.text.clone()
    }

    /// The bound this transcript was made with.
    pub fn max_chars(&self) -> (r: usize)
        ensures
            r == self.limit(),
    {
        self.max_chars
    }
}

/// After any run of appends a bounded transcript holds the last `max_chars`
/// characters of what it held before followed by everything it was given,
/// and so never more than `max_chars`.
pub proof fn lemma_transcript_is_tail(held: Seq<char>, pieces: Seq<Seq<char>>, max_chars: nat)
    requires
        held.len() <= max_chars,
    ensures
        appended_all(held, pieces, max_chars) == last_chars(
            held + concatenated(pieces),
            max_chars,
        ),
        appended_all(held, pieces, max_chars).len() <= max_chars,
    decreases pieces.len(),
{
    if pieces.len() == 0 {
        assert(held + concatenated(pieces) =~= held);
    } else {
        let earlier = pieces.drop_last();
        lemma_transcript_is_tail(held, earlier, max_chars);
        lemma_last_chars_append(held + concatenated(earlier), pieces.last(), max_chars);
        assert((held + concatenated(earlier)) + pieces.last() =~= held + concatenated(pieces));
    }
}

} // verus!
