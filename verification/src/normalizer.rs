//! Repair of track documents that a known producer writes badly.
//!
//! Some producers write an empty author element inside the copyright element.
//! The decoder has no place for it, so the fragment is cut out of the document
//! before it is decoded. Nothing else is changed.

use vstd::prelude::*;
use vstd::string::StringSliceAdditionalSpecFns;

verus! {

/// The fragment that is cut out, with its line breaks and indentation.
pub const EMPTY_AUTHOR_COPYRIGHT: &'static str =
    "<copyright>\n            <author></author>\n        </copyright>";

/// Whether `pattern` stands in `text` at position `at`.
pub open spec fn occurs_at(text: Seq<u8>, pattern: Seq<u8>, at: int) -> bool {
    0 <= at && at + pattern.len() <= text.len() && text.subrange(at, at + pattern.len()) == pattern
}

/// Whether `pattern` stands somewhere in `text`.
pub open spec fn occurs(text: Seq<u8>, pattern: Seq<u8>) -> bool {
    exists|at: int| occurs_at(text, pattern, at)
}

/// `text` without the occurrences of `pattern`, which are looked for from
/// left to right, each after the end of the one before.
pub open spec fn without(text: Seq<u8>, pattern: Seq<u8>) -> Seq<u8>
    decreases text.len(),
{
    if pattern.len() == 0 || text.len() < pattern.len() {
        text
    } else if occurs_at(text, pattern, 0) {
        without(text.skip(pattern.len() as int), pattern)
    } else {
        seq![text[0]] + without(text.drop_first(), pattern)
    }
}

/// The document as it is handed to the decoder.
pub open spec fn normalized(document: Seq<u8>) -> Seq<u8> {
    without(document, EMPTY_AUTHOR_COPYRIGHT.spec_bytes())
}

/// Cutting `pattern` out of a text that does not hold it changes nothing.
pub proof fn lemma_without_absent(text: Seq<u8>, pattern: Seq<u8>)
    requires
        !occurs(text, pattern),
    ensures
        without(text, pattern) == text,
    decreases text.len(),
{
    if pattern.len() == 0 || text.len() < pattern.len() {
    } else {
        assert(!occurs_at(text, pattern, 0));
        let rest = text.drop_first();
        assert forall|at: int| !occurs_at(rest, pattern, at) by {
            if occurs_at(rest, pattern, at) {
                assert(rest.subrange(at, at + pattern.len()) =~= text.subrange(
                    at + 1,
                    at + 1 + pattern.len(),
                ));
                assert(occurs_at(text, pattern, at + 1));
            }
        }
        lemma_without_absent(rest, pattern);
        assert(seq![text[0]] + rest =~= text);
    }
}

/// Cutting `pattern` out never makes a text longer, and makes it shorter
/// where the text holds `pattern`.
pub proof fn lemma_without_shortens(text: Seq<u8>, pattern: Seq<u8>)
    requires
        pattern.len() > 0,
    ensures
        without(text, pattern).len() <= text.len(),
        occurs(text, pattern) ==> without(text, pattern).len() < text.len(),
    decreases text.len(),
{
    if text.len() < pattern.len() {
        assert forall|at: int| !occurs_at(text, pattern, at) by {}
    } else if occurs_at(text, pattern, 0) {
        lemma_without_shortens(text.skip(pattern.len() as int), pattern);
    } else {
        let rest = text.drop_first();
        lemma_without_shortens(rest, pattern);
        if occurs(text, pattern) {
            let at = choose|at: int| occurs_at(text, pattern, at);
            assert(at > 0);
            assert(rest.subrange(at - 1, at - 1 + pattern.len()) =~= text.subrange(
                at,
                at + pattern.len(),
            ));
            assert(occurs_at(rest, pattern, at - 1));
        }
    }
}

/// Normalizing a second time changes nothing exactly when the document
/// normalized once does not hold the fragment.
///
/// Cutting a fragment out can join the text on its two sides into a new
/// fragment, so this is not so for every document.
pub proof fn lemma_normalized_twice(document: Seq<u8>)
    ensures
        normalized(normalized(document)) == normalized(document) <==> !occurs(
            normalized(document),
            EMPTY_AUTHOR_COPYRIGHT.spec_bytes(),
        ),
{
    let pattern = EMPTY_AUTHOR_COPYRIGHT.spec_bytes();
    let once = normalized(document);
    if !occurs(once, pattern) {
        lemma_without_absent(once, pattern);
    } else {
        lemma_fragment_bytes();
        lemma_without_shortens(once, pattern);
    }
}

/// A document that does not hold the fragment is left as it is.
pub proof fn lemma_normalized_unchanged(document: Seq<u8>)
    requires
        !occurs(document, EMPTY_AUTHOR_COPYRIGHT.spec_bytes()),
    ensures
        normalized(document) == document,
{
    lemma_without_absent(document, EMPTY_AUTHOR_COPYRIGHT.spec_bytes());
}

/// The fragment is 62 bytes long, one for each of its characters.
pub proof fn lemma_fragment_bytes()
    ensures
        EMPTY_AUTHOR_COPYRIGHT.spec_bytes().len() == 62,
        forall|i: int|
            0 <= i < 62 ==> #[trigger] EMPTY_AUTHOR_COPYRIGHT.spec_bytes()[i]
                == EMPTY_AUTHOR_COPYRIGHT@[i] as u8,
{
    reveal_strlit("<copyright>\n            <author></author>\n        </copyright>");
    assert(vstd::string::is_ascii(EMPTY_AUTHOR_COPYRIGHT));
    vstd::string::is_ascii_spec_bytes(EMPTY_AUTHOR_COPYRIGHT);
}

/// Whether `pattern` stands in `text` at `at`.
fn stands_at(text: &[u8], pattern: &[u8], at: usize) -> (found: bool)
    requires
        at <= text.len(),
    ensures
        found == occurs_at(text@, pattern@, at as int),
{
    if pattern.len() > text.len() - at {
        return false;
    }
    let mut k: usize = 0;
    while k < pattern.len()
        invariant
            k <= pattern.len(),
            at + pattern.len() <= text.len(),
            forall|j: int| 0 <= j < k ==> text@[at + j] == pattern@[j],
        decreases pattern.len() - k,
    {
        if text[at + k] != pattern[k] {
            proof {
                assert(text@.subrange(at as int, at + pattern.len())[k as int] == text@[at + k]);
            }
            return false;
        }
        k += 1;
    }
    proof {
        assert(text@.subrange(at as int, at + pattern.len()) =~= pattern@);
    }
    true
}

/// Cuts every occurrence of `pattern` out of `text`.
fn cut_out(text: &[u8], pattern: &[u8]) -> (out: Vec<u8>)
    requires
        pattern.len() > 0,
    ensures
        out@ == without(text@, pattern@),
{
    let mut out: Vec<u8> = Vec::new();
    let mut i: usize = 0;
    proof {
        assert(text@.skip(0) =~= text@);
        assert(out@ + without(text@, pattern@) =~= without(text@, pattern@));
    }
    while i < text.len()
        invariant
            i <= text.len(),
            pattern.len() > 0,
            out@ + without(text@.skip(i as int), pattern@) == without(text@, pattern@),
        decreases text.len() - i,
    {
        let ghost rest = text@.skip(i as int);
        let ghost kept = out@;
        let found = stands_at(text, pattern, i);
        proof {
            if i + pattern.len() <= text.len() {
                assert(rest.subrange(0, pattern.len() as int) =~= text@.subrange(
                    i as int,
                    i + pattern.len(),
                ));
            }
            assert(found == occurs_at(rest, pattern@, 0));
        }
        if found {
            proof {
                assert(rest.skip(pattern.len() as int) =~= text@.skip(i + pattern.len()));
            }
            i += pattern.len();
        } else {
            out.push(text[i]);
            proof {
                let tail = rest.drop_first();
                assert(tail =~= text@.skip(i + 1));
                assert(without(rest, pattern@) == seq![rest[0]] + without(tail, pattern@)) by {
                    if rest.len() < pattern.len() {
                        assert(seq![rest[0]] + tail =~= rest);
                    }
                }
                assert(out@ + without(tail, pattern@) =~= kept + without(rest, pattern@));
            }
            i += 1;
        }
    }
    proof {
        assert(out@ + without(text@.skip(text.len() as int), pattern@) =~= out@);
    }
    out
}

/// Cuts the empty author element of the copyright element out of `document`.
pub fn normalize(document: &[u8]) -> (out: Vec<u8>)
    ensures
        out@ == normalized(document@),
{
    let fragment = EMPTY_AUTHOR_COPYRIGHT.as_bytes();
    proof {
        lemma_fragment_bytes();
    }
    cut_out(document, fragment)
}

} // verus!
