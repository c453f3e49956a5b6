//! Which language the update gate speaks: the caller's own choice, then the one
//! the operating system's environment names, then English.

use crate::text;

use vstd::prelude::*;
use vstd::string::StrSliceExecFns;
use vstd::utf8::*;

verus! {

/// What a language code ends at in a locale.
pub open spec fn is_separator(c: char) -> bool {
    c == '_' || c == '.' || c == '-'
}

/// What stands before the first separator.
pub open spec fn head(raw: Seq<char>) -> Seq<char>
    decreases raw.len(),
{
    if raw.len() == 0 || is_separator(raw.first()) {
        Seq::empty()
    } else {
        seq![raw.first()] + head(raw.drop_first())
    }
}

/// Two lowercase ASCII letters.
pub open spec fn is_language_code(code: Seq<char>) -> bool {
    code.len() == 2 && 'a' <= code[0] <= 'z' && 'a' <= code[1] <= 'z'
}

/// The text, if it is a language code.
pub open spec fn code_in(text: Seq<char>) -> Option<Seq<char>> {
    if is_language_code(text) {
        Some(text)
    } else {
        None
    }
}

/// The language a locale-ish text names, if any.
pub open spec fn language_of(raw: Seq<char>) -> Option<Seq<char>> {
    code_in(text::lowercase(head(raw)))
}

/// As [`language_of`], for a text whose first part is ASCII.
pub open spec fn ascii_language_of(raw: Seq<char>) -> Option<Seq<char>> {
    code_in(head(raw).map_values(|c: char| text::ascii_lower(c)))
}

/// The first of the two languages, or English.
pub open spec fn first_language(
    caller: Option<Seq<char>>,
    env: Option<Seq<char>>,
) -> Seq<char> {
    match caller {
        Some(lang) => lang,
        None => match env {
            Some(lang) => lang,
            None => "en"@,
        },
    }
}

/// The language that an optional text names.
pub open spec fn language_in(raw: Option<&str>) -> Option<Seq<char>> {
    match raw {
        Some(raw) => language_of(raw@),
        None => None,
    }
}

/// As [`language_in`], for a text whose first part is ASCII.
pub open spec fn ascii_language_in(raw: Option<&str>) -> Option<Seq<char>> {
    match raw {
        Some(raw) => ascii_language_of(raw@),
        None => None,
    }
}

/// Whether the first part of an optional text is ASCII.
pub open spec fn is_ascii_headed(raw: Option<&str>) -> bool {
    raw matches Some(raw) ==> is_ascii_chars(head(raw@))
}

/// What stands before the first separator.
fn before_separator(raw: &str) -> (r: &str)
    ensures
        r@ == head(raw@),
{
    let len: usize = raw.unicode_len();
    let mut end: usize = 0;
    assert(raw@.skip(0) =~= raw@);
    assert(raw@.take(0) =~= Seq::<char>::empty());
    assert(raw@.take(0) + head(raw@) =~= head(raw@));
    while end < len
        invariant_except_break
            len == raw@.len(),
            end <= len,
            head(raw@) == raw@.take(end as int) + head(raw@.skip(end as int)),
        ensures
            end <= raw@.len(),
            head(raw@) == raw@.take(end as int),
        decreases len - end,
    {
        let c = raw.get_char(end);
        assert(raw@.skip(end as int).first() == c);
        if c == '_' || c == '.' || c == '-' {
            assert(raw@.take(end as int) + Seq::<char>::empty() =~= raw@.take(end as int));
            break;
        }
        assert(raw@.skip(end as int).drop_first() =~= raw@.skip(end + 1));
        assert(raw@.take(end as int) + (seq![c] + head(raw@.skip(end + 1))) =~= raw@.take(end + 1)
            + head(raw@.skip(end + 1)));
        end += 1;
        if end == len {
            assert(raw@.skip(end as int) =~= Seq::<char>::empty());
            assert(raw@.take(end as int) + head(raw@.skip(end as int)) =~= raw@.take(end as int));
        }
    }
    assert(raw@.take(end as int) =~= raw@.subrange(0, end as int));
    raw.substring_char(0, end)
}

/// The text, if it is exactly two lowercase ASCII letters.
#[must_use]
pub fn language_code(text: String) -> (r: Option<String>)
    ensures
        text::opt_text(r) == code_in(text@),
        r is Some <==> text@.len() == 2 && 'a' <= text@[0] <= 'z' && 'a' <= text@[1] <= 'z',
        r matches Some(code) ==> code@ == text@,
{
    if text.as_str().unicode_len() != 2 {
        return None;
    }
    let first = text.as_str().get_char(0);
    let second = text.as_str().get_char(1);
    if 'a' <= first && first <= 'z' && 'a' <= second && second <= 'z' {
        Some(text)
    } else {
        None
    }
}

/// Pulls a lowercase two-letter language code out of a locale-ish string — a
/// bare code like `"vi"`, or a POSIX locale like `"vi_VN.UTF-8"` or `"en-US"` —
/// by taking the substring before the first `_`, `.`, or `-`. Returns `None`
/// for anything that doesn't reduce to exactly two ASCII letters, including
/// `""`, `"C"`, and `"POSIX"`, none of which name a language.
#[must_use]
pub fn parse_language(raw: &str) -> (r: Option<String>)
    ensures
        text::opt_text(r) == language_of(raw@),
        is_ascii_chars(head(raw@)) ==> text::opt_text(r) == ascii_language_of(raw@),
        exists|n: int|
            {
                &&& 0 <= n <= raw@.len()
                &&& forall|i: int|
                    0 <= i < n ==> (#[trigger] raw@[i]) != '_' && raw@[i] != '.' && raw@[i] != '-'
                &&& n < raw@.len() ==> raw@[n] == '_' || raw@[n] == '.' || raw@[n] == '-'
                &&& {
                    let code = text::lowercase(#[trigger] raw@.take(n));
                    &&& r is Some <==> code.len() == 2 && 'a' <= code[0] <= 'z' && 'a' <= code[1]
                        <= 'z'
                    &&& r matches Some(found) ==> found@ == code
                }
                &&& is_ascii_chars(raw@.take(n)) ==> {
                    &&& r is Some <==> n == 2 && 'a' <= text::ascii_lower(raw@[0]) <= 'z' && 'a'
                        <= text::ascii_lower(raw@[1]) <= 'z'
                    &&& r matches Some(found) ==> found@ == seq![
                        text::ascii_lower(raw@[0]),
                        text::ascii_lower(raw@[1]),
                    ]
                }
            },
{
    let before = before_separator(raw);
    proof {
        lemma_head(raw@);
        let n = head(raw@).len() as int;
        let lowered = raw@.take(n).map_values(|c: char| text::ascii_lower(c));
        assert(lowered.len() == n);
        if n == 2 {
            assert(lowered =~= seq![text::ascii_lower(raw@[0]), text::ascii_lower(raw@[1])]);
        }
    }
    language_code(text::to_lowercase(before))
}

/// Resolves the language to check the update gate against: the caller's own
/// choice first, then the OS environment, then `"en"` if neither yields a usable
/// two-letter code. Kept separate from where each side comes from so the
/// fallback order does not depend on the environment.
#[must_use]
pub fn resolve_language(caller: Option<&str>, env: Option<&str>) -> (r: String)
    ensures
        r@ == first_language(language_in(caller), language_in(env)),
        is_ascii_headed(caller) && is_ascii_headed(env) ==> r@ == first_language(
            ascii_language_in(caller),
            ascii_language_in(env),
        ),
{
    if let Some(caller) = caller {
        if let Some(lang) = parse_language(caller) {
            return lang;
        }
    }
    if let Some(env) = env {
        if let Some(lang) = parse_language(env) {
            return lang;
        }
    }
    "en".to_owned()
}

/// The value of a variable that is set to something. An empty variable counts
/// as unset, as POSIX says.
pub open spec fn set_value(value: Option<String>) -> Option<Seq<char>> {
    match value {
        Some(v) => if v@.len() > 0 {
            Some(v@)
        } else {
            None
        },
        None => None,
    }
}

/// The value of a variable that is set to something.
fn non_empty(value: Option<String>) -> (r: Option<String>)
    ensures
        text::opt_text(r) == set_value(value),
{
    match value {
        Some(v) => if v.as_str().unicode_len() > 0 {
            Some(v)
        } else {
            None
        },
        None => None,
    }
}

/// The OS's language hint, from what the POSIX locale variables hold, in the
/// order POSIX gives them for messages: `LC_ALL` overrides everything, `LANG` is
/// only the default.
pub open spec fn locale_hint(
    lc_all: Option<String>,
    lc_messages: Option<String>,
    lang: Option<String>,
) -> Option<Seq<char>> {
    if set_value(lc_all) is Some {
        set_value(lc_all)
    } else if set_value(lc_messages) is Some {
        set_value(lc_messages)
    } else {
        set_value(lang)
    }
}

/// Reads the OS's language hint, unparsed, from the POSIX locale variables
/// through `var`, in the order POSIX gives them for messages: `LC_ALL`
/// overrides everything, `LANG` is only the default. An empty variable counts
/// as unset, as POSIX says. Asks for no other variable, and for none after the
/// first that is set. Desktop only: mobile targets typically leave these unset.
pub fn env_language(var: impl Fn(&str) -> Option<String>) -> (r: Option<String>)
    requires
        call_requires(var, ("LC_ALL",)),
        forall|lc_all: Option<String>|
            (#[trigger] call_ensures(var, ("LC_ALL",), lc_all)) && set_value(lc_all) is None
                ==> call_requires(var, ("LC_MESSAGES",)),
        forall|lc_all: Option<String>, lc_messages: Option<String>|
            (#[trigger] call_ensures(var, ("LC_ALL",), lc_all)) && set_value(lc_all) is None && (
            #[trigger] call_ensures(var, ("LC_MESSAGES",), lc_messages)) && set_value(
                lc_messages,
            ) is None ==> call_requires(var, ("LANG",)),
    ensures
        exists|lc_all: Option<String>, lc_messages: Option<String>, lang: Option<String>|
            {
                &&& text::opt_text(r) == #[trigger] locale_hint(lc_all, lc_messages, lang)
                &&& call_ensures(var, ("LC_ALL",), lc_all)
                &&& set_value(lc_all) is None ==> call_ensures(var, ("LC_MESSAGES",), lc_messages)
                &&& set_value(lc_all) is None && set_value(lc_messages) is None ==> call_ensures(
                    var,
                    ("LANG",),
                    lang,
                )
            },
{
    let value = var("LC_ALL");
    let ghost lc_all = value;
    if let Some(hint) = non_empty(value) {
        assert(text::opt_text(Some(hint)) == locale_hint(lc_all, None, None));
        return Some(hint);
    }
    let value = var("LC_MESSAGES");
    let ghost lc_messages = value;
    if let Some(hint) = non_empty(value) {
        assert(text::opt_text(Some(hint)) == locale_hint(lc_all, lc_messages, None));
        return Some(hint);
    }
    let value = var("LANG");
    let ghost lang = value;
    let hint = non_empty(value);
    assert(text::opt_text(hint) == locale_hint(lc_all, lc_messages, lang));
    hint
}

/// Where the caller's choice names a language, the environment has no say.
pub proof fn law_the_caller_wins_over_the_environment(
    caller: Seq<char>,
    env: Option<Seq<char>>,
)
    requires
        language_of(caller) is Some,
    ensures
        first_language(language_of(caller), env) == language_of(caller)->0,
{
}

/// Whatever is asked for, the answer is a language code.
pub proof fn law_the_answer_is_a_language_code(caller: Option<&str>, env: Option<&str>)
    ensures
        is_language_code(first_language(language_in(caller), language_in(env))),
{
    reveal_strlit("en");
}

/// A locale names the language that stands before its first separator, whatever
/// follows it.
pub proof fn law_only_what_stands_before_the_separator_counts(
    code: Seq<char>,
    separator: char,
    rest: Seq<char>,
)
    requires
        is_separator(separator),
    ensures
        language_of(code + seq![separator] + rest) == language_of(code),
{
    lemma_head_of_separated(code, separator, rest);
}

/// What follows a separator is not part of the head.
proof fn lemma_head_of_separated(code: Seq<char>, separator: char, rest: Seq<char>)
    requires
        is_separator(separator),
    ensures
        head(code + seq![separator] + rest) == head(code),
    decreases code.len(),
{
    let raw = code + seq![separator] + rest;
    if code.len() > 0 {
        assert(raw.first() == code.first());
        assert(raw.drop_first() =~= code.drop_first() + seq![separator] + rest);
        lemma_head_of_separated(code.drop_first(), separator, rest);
    } else {
        assert(raw.first() == separator);
    }
}

/// The head is a prefix that ends at the first separator, or nowhere.
proof fn lemma_head(raw: Seq<char>)
    ensures
        head(raw).len() <= raw.len(),
        head(raw) == raw.take(head(raw).len() as int),
        forall|i: int|
            0 <= i < head(raw).len() ==> (#[trigger] raw[i]) != '_' && raw[i] != '.' && raw[i]
                != '-',
        head(raw).len() < raw.len() ==> {
            let c = raw[head(raw).len() as int];
            c == '_' || c == '.' || c == '-'
        },
    decreases raw.len(),
{
    if raw.len() > 0 && !is_separator(raw.first()) {
        let rest = raw.drop_first();
        lemma_head(rest);
        assert(head(raw) =~= raw.take(head(raw).len() as int));
        assert forall|i: int| 0 <= i < head(raw).len() implies (#[trigger] raw[i]) != '_' && raw[i]
            != '.' && raw[i] != '-' by {
            if i > 0 {
                assert(raw[i] == rest[i - 1]);
            }
        }
    } else {
        assert(head(raw) =~= raw.take(0));
    }
}

/// The language is the caller's where that names one, else the environment's
/// where that does, else English.
pub proof fn law_the_first_usable_language_counts(caller: Option<&str>, env: Option<&str>)
    ensures
        ({
            let chosen = first_language(language_in(caller), language_in(env));
            let from_caller = caller is Some && language_of(caller->0@) is Some;
            let from_env = env is Some && language_of(env->0@) is Some;
            &&& from_caller ==> Some(chosen) == language_of(caller->0@)
            &&& !from_caller && from_env ==> Some(chosen) == language_of(env->0@)
            &&& !from_caller && !from_env ==> chosen == seq!['e', 'n']
        }),
{
    reveal_strlit("en");
    assert("en"@ =~= seq!['e', 'n']);
}

/// The hint is the first of the three variables that holds anything, as it
/// stands, and there is none where all of them are unset or empty.
pub proof fn law_the_first_variable_that_holds_anything_counts(
    lc_all: Option<String>,
    lc_messages: Option<String>,
    lang: Option<String>,
)
    ensures
        ({
            let holds = |v: Option<String>| v is Some && v->0@.len() > 0;
            let hint = locale_hint(lc_all, lc_messages, lang);
            &&& holds(lc_all) ==> hint == Some(lc_all->0@)
            &&& !holds(lc_all) && holds(lc_messages) ==> hint == Some(lc_messages->0@)
            &&& !holds(lc_all) && !holds(lc_messages) && holds(lang) ==> hint == Some(lang->0@)
            &&& !holds(lc_all) && !holds(lc_messages) && !holds(lang) ==> hint is None
        }),
{
}

} // verus!
