//! Who the install is, and whether it said not to be watched: a v4 UUID made
//! once and kept in a file, and a marker file for opting out. Both live as
//! plain files rather than anything richer because there is nothing else to
//! store, and a missing or broken file should always be recoverable without
//! help — analytics must never be the reason the app fails to start.

use crate::posthog::event;
use crate::text;

use vstd::prelude::*;

verus! {

/// Holds the install's anonymous id: a v4 UUID as trimmed text.
pub const ID_FILE: &'static str = "posthog-id";

/// Its mere presence means the install opted out; contents don't matter.
pub const OPT_OUT_FILE: &'static str = "posthog-opt-out";

/// A hexadecimal digit of either case.
pub open spec fn is_hex_digit(c: char) -> bool {
    ('0' <= c <= '9') || ('a' <= c <= 'f') || ('A' <= c <= 'F')
}

/// Where a UUID has its hyphens.
pub open spec fn is_hyphen_place(i: int) -> bool {
    i == 8 || i == 13 || i == 18 || i == 23
}

/// 32 hexadecimal digits.
pub open spec fn is_simple_uuid(id: Seq<char>) -> bool {
    id.len() == 32 && forall|i: int| 0 <= i < 32 ==> is_hex_digit(#[trigger] id[i])
}

/// 32 hexadecimal digits in groups of 8, 4, 4, 4 and 12.
pub open spec fn is_hyphenated_uuid(id: Seq<char>) -> bool {
    id.len() == 36 && forall|i: int|
        0 <= i < 36 ==> if is_hyphen_place(i) {
            #[trigger] id[i] == '-'
        } else {
            is_hex_digit(id[i])
        }
}

/// The 32 digits in their groups.
pub open spec fn with_hyphens(digits: Seq<char>) -> Seq<char> {
    digits.subrange(0, 8) + seq!['-'] + digits.subrange(8, 12) + seq!['-'] + digits.subrange(12, 16)
        + seq!['-'] + digits.subrange(16, 20) + seq!['-'] + digits.subrange(20, 32)
}

/// ASCII text with `A` to `Z` lowered.
pub open spec fn lowered(text: Seq<char>) -> Seq<char> {
    text.map_values(|c: char| text::ascii_lower(c))
}

/// The hyphenated lowercase form of the UUID that `text` writes down: in plain
/// digits, hyphenated, in braces, or as a URN.
pub open spec fn canonical_uuid(text: Seq<char>) -> Option<Seq<char>> {
    if is_simple_uuid(text) {
        Some(lowered(with_hyphens(text)))
    } else if is_hyphenated_uuid(text) {
        Some(lowered(text))
    } else if text.len() == 38 && text[0] == '{' && text[37] == '}' && is_hyphenated_uuid(
        text.subrange(1, 37),
    ) {
        Some(lowered(text.subrange(1, 37)))
    } else if text.len() == 45 && lowered(text.take(9)) == "urn:uuid:"@ && is_hyphenated_uuid(
        text.skip(9),
    ) {
        Some(lowered(text.skip(9)))
    } else {
        None
    }
}

/// `Uuid::parse_str`, then the parsed UUID's text: the hyphenated lowercase form
/// of what was parsed. It parses 32 digits, those in hyphenated groups, and the
/// groups in braces or behind `urn:uuid:`, digits and prefix in either case;
/// everything else is an error.
#[verifier::external_body]
fn parse_uuid(text: &str) -> (id: Option<String>)
    ensures
        text::opt_text(id) == canonical_uuid(text@),
{
    uuid::Uuid::parse_str(text).ok().map(|uuid| uuid.to_string())
}

/// The install's id, and whether it is new and is to be saved.
pub struct InstallId {
    pub id: String,
    pub save: bool,
}

/// The install's anonymous id, made once and remembered: `saved` is what its
/// file holds, if it could be read. A missing, unreadable, or garbage id is
/// treated the same: a fresh id is generated, to be saved in its place. If it
/// cannot be saved, there is still something to tag this run's events with — it
/// just won't be the same id next run.
#[must_use]
pub fn install_id(saved: Option<&str>) -> (r: InstallId)
    ensures
        r.save <==> !(saved matches Some(s) && canonical_uuid(text::trimmed(s@)) is Some),
        saved matches Some(s) ==> (canonical_uuid(text::trimmed(s@)) matches Some(id) ==> r.id@
            == id),
        r.save ==> event::is_v4_uuid(r.id@),
        r.save ==> call_ensures(event::new_uuid, (), r.id),
{
    if let Some(contents) = saved {
        if let Some(id) = parse_uuid(text::trim(contents)) {
            return InstallId { id, save: false };
        }
    }
    InstallId { id: event::new_uuid(), save: true }
}

/// Whether this install has opted out of analytics, by whether its marker was
/// found. Any reason the marker can't be read — it's missing, its directory
/// doesn't exist, permissions — reads as "not opted out"; opting out is a
/// deliberate act that is only recognized once the marker can actually be seen.
#[must_use]
pub fn opted_out(found: Result<bool, String>) -> (r: bool)
    ensures
        r == (found matches Ok(there) && there),
{
    match found {
        Ok(there) => there,
        Err(_) => false,
    }
}

/// What is done to the marker file.
#[derive(Debug, Clone, Copy, PartialEq, Eq, Structural)]
pub enum Marker {
    /// Create it, and its directory first; it may already be there.
    Create,
    /// Remove it, if it is there.
    Remove,
}

/// What a choice does to the marker file.
pub open spec fn marker_for(out: bool) -> Marker {
    if out {
        Marker::Create
    } else {
        Marker::Remove
    }
}

/// Persists whether this install has opted out, by creating or removing the
/// marker file.
#[must_use]
pub fn set_opted_out(out: bool) -> (r: Marker)
    ensures
        r == marker_for(out),
{
    if out {
        Marker::Create
    } else {
        Marker::Remove
    }
}

/// What came of removing the marker file.
pub enum Removal {
    Removed,
    /// There was none.
    NotFound,
    Failed(String),
}

/// Whether the install has opted back in. It has where there was no marker in
/// the first place.
///
/// # Errors
///
/// Returns the error of a marker file that is there and can't be removed.
pub fn removed(outcome: Removal) -> (r: Result<(), String>)
    ensures
        r is Err <==> outcome is Failed,
        r matches Err(e) ==> outcome == Removal::Failed(e),
{
    match outcome {
        Removal::Removed => Ok(()),
        Removal::NotFound => Ok(()),
        Removal::Failed(e) => Err(e),
    }
}

/// Whether the marker is there after a run of choices, each carried out, where
/// `found` says whether it was there before.
pub open spec fn is_marked_after(found: bool, choices: Seq<bool>) -> bool {
    if choices.len() == 0 {
        found
    } else {
        match marker_for(choices.last()) {
            Marker::Create => true,
            Marker::Remove => false,
        }
    }
}

/// Text with no white space at its ends is its own trimmed text.
proof fn lemma_trimmed_of_hyphenated(id: Seq<char>)
    requires
        is_hyphenated_uuid(id),
    ensures
        text::trimmed(id) == id,
{
    assert(!is_hyphen_place(0) && !is_hyphen_place(35));
    assert(is_hex_digit(id[0]) && is_hex_digit(id[35]));
    assert(!text::is_white_space(id[0]) && !text::is_white_space(id[35]));
}

/// A hyphenated UUID stays one in lowercase, and lowering it again changes
/// nothing.
proof fn lemma_lowered_hyphenated(id: Seq<char>)
    requires
        is_hyphenated_uuid(id),
    ensures
        is_hyphenated_uuid(lowered(id)),
        lowered(lowered(id)) == lowered(id),
{
    assert forall|i: int| 0 <= i < 36 implies if is_hyphen_place(i) {
        #[trigger] lowered(id)[i] == '-'
    } else {
        is_hex_digit(lowered(id)[i])
    } by {
        lemma_lower_digit(id[i]);
    }
    assert forall|i: int| 0 <= i < 36 implies #[trigger] lowered(lowered(id))[i] == lowered(
        id,
    )[i] by {
        lemma_lower_digit(id[i]);
    }
    assert(lowered(lowered(id)) =~= lowered(id));
}

/// The lowercase of a digit or a hyphen.
proof fn lemma_lower_digit(c: char)
    requires
        is_hex_digit(c) || c == '-',
    ensures
        text::ascii_lower(text::ascii_lower(c)) == text::ascii_lower(c),
        is_hex_digit(c) ==> is_hex_digit(text::ascii_lower(c)),
        c == '-' ==> text::ascii_lower(c) == '-',
{
}

/// Digits put into groups are a hyphenated UUID.
proof fn lemma_with_hyphens(digits: Seq<char>)
    requires
        is_simple_uuid(digits),
    ensures
        is_hyphenated_uuid(with_hyphens(digits)),
{
    let id = with_hyphens(digits);
    assert forall|i: int| 0 <= i < 36 implies if is_hyphen_place(i) {
        #[trigger] id[i] == '-'
    } else {
        is_hex_digit(id[i])
    } by {
        if i < 8 {
            assert(id[i] == digits[i]);
        } else if 8 < i < 13 {
            assert(id[i] == digits[i - 1]);
        } else if 13 < i < 18 {
            assert(id[i] == digits[i - 2]);
        } else if 18 < i < 23 {
            assert(id[i] == digits[i - 3]);
        } else if 23 < i {
            assert(id[i] == digits[i - 4]);
        }
    }
}

/// An install keeps its id: whatever form the saved id was in, the id that was
/// read from it is read back the same when it is saved.
pub proof fn law_an_id_is_read_back_the_same(saved: Seq<char>)
    requires
        canonical_uuid(saved) is Some,
    ensures
        canonical_uuid(text::trimmed(canonical_uuid(saved)->0)) == canonical_uuid(saved),
{
    let plain = if is_simple_uuid(saved) {
        lemma_with_hyphens(saved);
        with_hyphens(saved)
    } else if is_hyphenated_uuid(saved) {
        saved
    } else if saved.len() == 38 {
        saved.subrange(1, 37)
    } else {
        saved.skip(9)
    };
    lemma_lowered_hyphenated(plain);
    lemma_trimmed_of_hyphenated(lowered(plain));
}

/// A fresh id is kept too: once saved, it is read back the same.
pub proof fn law_a_fresh_id_is_read_back_the_same(id: Seq<char>)
    requires
        event::is_v4_uuid(id),
    ensures
        canonical_uuid(text::trimmed(id)) == Some(id),
{
    assert forall|i: int| 0 <= i < 36 implies if is_hyphen_place(i) {
        #[trigger] id[i] == '-'
    } else {
        is_hex_digit(id[i])
    } by {}
    lemma_trimmed_of_hyphenated(id);
    assert(lowered(id) =~= id);
}

/// The last choice is the one that is read back, whatever was chosen before:
/// opting out twice, or in when never out, are both fine.
pub proof fn law_the_last_choice_is_read_back(found: bool, choices: Seq<bool>, out: bool)
    ensures
        is_marked_after(found, choices.push(out)) == out,
{
}

} // verus!
