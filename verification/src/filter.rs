//! Tag filters: from the words of a filter to anchored regular expressions,
//! and from those to the groups of a monitor that a filter keeps.

use regex::RegexSet;
use vstd::prelude::*;
use vstd::string::StrSliceExecFns;
use vstd::string::StringExecFns;
use crate::text::chars_of;
use crate::text::string_of;

verus! {

/// The characters that have a meaning of their own in a regular expression.
pub open spec fn is_meta_character(c: char) -> bool {
    c == '\\' || c == '.' || c == '+' || c == '*' || c == '?' || c == '(' || c == ')' || c == '|'
        || c == '[' || c == ']' || c == '{' || c == '}' || c == '^' || c == '$' || c == '#'
        || c == '&' || c == '-' || c == '~'
}

/// What stands for the character `c` in an escaped text.
pub open spec fn escaped_char(c: char) -> Seq<char> {
    if is_meta_character(c) {
        seq!['\\', c]
    } else {
        seq![c]
    }
}

/// `text` with a backslash before each of its meta characters.
pub open spec fn escaped(text: Seq<char>) -> Seq<char>
    decreases text.len(),
{
    if text.len() == 0 {
        Seq::empty()
    } else {
        escaped_char(text[0]) + escaped(text.skip(1))
    }
}

/// `regex::escape`: the text that comes back holds the characters of `text`
/// in order, each meta character of `regex_syntax::is_meta_character` with a
/// backslash before it.
#[verifier::external_body]
fn escape(text: &str) -> (r: String)
    ensures
        r@ == escaped(text@),
{
    regex::escape(text)
}

/// What stands for the character `c` of a glob in a regular expression: `*`
/// is any run of characters, `?` any one character, and every other
/// character itself.
pub open spec fn glob_char(c: char) -> Seq<char> {
    if c == '*' {
        seq!['.', '*']
    } else if c == '?' {
        seq!['.']
    } else {
        escaped_char(c)
    }
}

/// The regular expression that matches what the glob `text` matches.
pub open spec fn glob_pattern(text: Seq<char>) -> Seq<char>
    decreases text.len(),
{
    if text.len() == 0 {
        Seq::empty()
    } else {
        glob_char(text[0]) + glob_pattern(text.skip(1))
    }
}

/// `text` with each escaped `*` turned into `.*` and each escaped `?` into `.`.
pub open spec fn globs_expanded(text: Seq<char>) -> Seq<char>
    decreases text.len(),
{
    if text.len() == 0 {
        Seq::empty()
    } else if text.len() >= 2 && text[0] == '\\' && text[1] == '*' {
        seq!['.', '*'] + globs_expanded(text.skip(2))
    } else if text.len() >= 2 && text[0] == '\\' && text[1] == '?' {
        seq!['.'] + globs_expanded(text.skip(2))
    } else {
        seq![text[0]] + globs_expanded(text.skip(1))
    }
}

/// An escaped text does not begin with a bare `*` or `?`.
proof fn lemma_escaped_head(text: Seq<char>)
    ensures
        escaped(text).len() > 0 ==> escaped(text)[0] != '*' && escaped(text)[0] != '?',
        text.len() > 0 ==> escaped(text).len() > 0,
{
    if text.len() > 0 {
        assert(escaped(text) == escaped_char(text[0]) + escaped(text.skip(1)));
    }
}

/// Expanding the globs of an escaped text gives the pattern of the text.
pub proof fn lemma_expand_escaped(text: Seq<char>)
    ensures
        globs_expanded(escaped(text)) == glob_pattern(text),
    decreases text.len(),
{
    if text.len() > 0 {
        let c = text[0];
        let rest = escaped(text.skip(1));
        let all = escaped(text);
        lemma_expand_escaped(text.skip(1));
        lemma_escaped_head(text.skip(1));
        assert(all == escaped_char(c) + rest);
        if is_meta_character(c) {
            assert(all.skip(2) =~= rest);
            assert(all.skip(1) =~= seq![c] + rest);
            if c != '*' && c != '?' {
                let tail = all.skip(1);
                assert(tail.skip(1) =~= rest);
                if c == '\\' {
                    if tail.len() >= 2 {
                        assert(tail[1] == rest[0]);
                    }
                }
                assert(globs_expanded(tail) == seq![c] + globs_expanded(rest));
                assert(globs_expanded(all) == seq!['\\'] + globs_expanded(tail));
                assert(globs_expanded(all) =~= glob_char(c) + glob_pattern(text.skip(1)));
            }
        } else {
            assert(all.skip(1) =~= rest);
        }
    }
}

/// The text of `escaped` with its globs expanded.
fn expand_globs(escaped: &str) -> (r: String)
    ensures
        r@ == globs_expanded(escaped@),
{
    let text = chars_of(escaped);
    let mut out: Vec<char> = Vec::new();
    let mut i: usize = 0;
    assert(text@.skip(0) =~= text@);
    while i < text.len()
        invariant
            i <= text.len(),
            out@ + globs_expanded(text@.skip(i as int)) == globs_expanded(text@),
        decreases text.len() - i,
    {
        let ghost rest = text@.skip(i as int);
        let c = text[i];
        if c == '\\' && i + 1 < text.len() && text[i + 1] == '*' {
            assert(rest.skip(2) =~= text@.skip(i + 2));
            out.push('.');
            out.push('*');
            assert(out@ + globs_expanded(text@.skip(i + 2)) =~= out@.drop_last().drop_last() + (
            seq!['.', '*'] + globs_expanded(rest.skip(2))));
            i += 2;
        } else if c == '\\' && i + 1 < text.len() && text[i + 1] == '?' {
            assert(rest.skip(2) =~= text@.skip(i + 2));
            out.push('.');
            assert(out@ + globs_expanded(text@.skip(i + 2)) =~= out@.drop_last() + (seq!['.']
                + globs_expanded(rest.skip(2))));
            i += 2;
        } else {
            assert(rest.skip(1) =~= text@.skip(i + 1));
            out.push(c);
            assert(out@ + globs_expanded(text@.skip(i + 1)) =~= out@.drop_last() + (seq![c]
                + globs_expanded(rest.skip(1))));
            i += 1;
        }
    }
    assert(out@ + globs_expanded(text@.skip(i as int)) =~= out@);
    string_of(&out)
}

/// `i` is the place of the first `c` in `text`.
pub open spec fn is_first(text: Seq<char>, c: char, i: int) -> bool {
    &&& 0 <= i < text.len()
    &&& text[i] == c
    &&& forall|j: int| 0 <= j < i ==> text[j] != c
}

/// The place of the first `c` in `text`, if `c` occurs in it.
pub open spec fn first_position(text: Seq<char>, c: char) -> Option<int> {
    if exists|i: int| is_first(text, c, i) {
        Some(choose|i: int| is_first(text, c, i))
    } else {
        None
    }
}

/// The place of the first `c` in `text`, if `c` occurs in it.
fn find(text: &Vec<char>, c: char) -> (r: Option<usize>)
    ensures
        match r {
            Some(i) => is_first(text@, c, i as int) && first_position(text@, c) == Some(i as int),
            None => first_position(text@, c) is None,
        },
{
    let mut i: usize = 0;
    while i < text.len()
        invariant
            i <= text.len(),
            forall|j: int| 0 <= j < i ==> text@[j] != c,
        decreases text.len() - i,
    {
        if text[i] == c {
            assert(is_first(text@, c, i as int));
            return Some(i);
        }
        i += 1;
    }
    None
}

/// The anchored regular expression of one word of a filter.  A word without
/// a colon is a glob that the start of a tag has to match.  In a word with a
/// colon, what stands before the first colon is a tag name, taken literally,
/// and what stands after it is a glob for the value.
pub open spec fn tag_pattern(tag: Seq<char>) -> Seq<char> {
    match first_position(tag, ':') {
        None => seq!['^'] + glob_pattern(tag),
        Some(i) => seq!['^'] + escaped(tag.take(i)) + seq![':'] + glob_pattern(tag.skip(i + 1)),
    }
}

/// The anchored regular expression of one word of a filter.
pub fn filter_tag_as_regex(tag: &str) -> (r: String)
    ensures
        r@ == tag_pattern(tag@),
{
    let text = chars_of(tag);
    let mut pattern = String::from_str("^");
    proof {
        reveal_strlit("^");
        reveal_strlit(":");
        assert("^"@ =~= seq!['^']);
        assert(":"@ =~= seq![':']);
    }
    match find(&text, ':') {
        None => {
            let body = expand_globs(escape(tag).as_str());
            proof {
                lemma_expand_escaped(tag@);
            }
            pattern.append(body.as_str());
        },
        Some(i) => {
            let name = escape(tag.substring_char(0, i));
            let value = expand_globs(escape(tag.substring_char(i + 1, text.len())).as_str());
            proof {
                lemma_expand_escaped(tag@.skip(i + 1));
                assert(tag@.subrange(0, i as int) =~= tag@.take(i as int));
                assert(tag@.subrange(i + 1, text.len() as int) =~= tag@.skip(i + 1));
            }
            pattern.append(name.as_str());
            pattern.append(":");
            pattern.append(value.as_str());
        },
    }
    pattern
}

/// The characters that separate the words of a filter: those with the
/// Unicode property `White_Space`.
pub open spec fn is_white_space(c: char) -> bool {
    ||| '\u{9}' <= c <= '\u{D}'
    ||| c == ' '
    ||| c == '\u{85}'
    ||| c == '\u{A0}'
    ||| c == '\u{1680}'
    ||| '\u{2000}' <= c <= '\u{200A}'
    ||| c == '\u{2028}'
    ||| c == '\u{2029}'
    ||| c == '\u{202F}'
    ||| c == '\u{205F}'
    ||| c == '\u{3000}'
}

/// Decides `is_white_space`.
fn white_space(c: char) -> (r: bool)
    ensures
        r == is_white_space(c),
{
    ('\u{9}' <= c && c <= '\u{D}') || c == ' ' || c == '\u{85}' || c == '\u{A0}' || c
        == '\u{1680}' || ('\u{2000}' <= c && c <= '\u{200A}') || c == '\u{2028}' || c
        == '\u{2029}' || c == '\u{202F}' || c == '\u{205F}' || c == '\u{3000}'
}

/// The words of `text`: its longest runs of characters that are not white
/// space, in order.  A character that is not white space goes on with the
/// last word when the character before it belongs to one, and begins a new
/// word when it does not.
pub open spec fn words(text: Seq<char>) -> Seq<Seq<char>>
    decreases text.len(),
{
    if text.len() == 0 {
        Seq::empty()
    } else {
        let before = words(text.drop_last());
        let c = text.last();
        if is_white_space(c) {
            before
        } else if text.len() >= 2 && !is_white_space(text[text.len() - 2]) {
            before.drop_last().push(before.last().push(c))
        } else {
            before.push(seq![c])
        }
    }
}

/// The texts that a sequence of strings holds.
pub open spec fn texts(strings: Seq<String>) -> Seq<Seq<char>> {
    strings.map_values(|s: String| s@)
}

/// The words of `text`, each as a string.
fn words_of(text: &str) -> (r: Vec<String>)
    ensures
        texts(r@) == words(text@),
{
    let all = chars_of(text);
    let mut done: Vec<String> = Vec::new();
    let mut word = String::new();
    let mut i: usize = 0;
    assert(all@.take(0) =~= Seq::<char>::empty());
    assert(texts(done@) =~= Seq::<Seq<char>>::empty());
    while i < all.len()
        invariant
            i <= all.len(),
            all@ == text@,
            word@.len() > 0 <==> i > 0 && !is_white_space(all@[i - 1]),
            word@.len() > 0 ==> words(all@.take(i as int)) == texts(done@).push(word@),
            word@.len() == 0 ==> words(all@.take(i as int)) == texts(done@),
        decreases all.len() - i,
    {
        let c = all[i];
        let ghost so_far = all@.take(i + 1);
        assert(so_far.drop_last() =~= all@.take(i as int));
        assert(so_far.last() == c);
        if white_space(c) {
            if !word.as_str().is_empty() {
                let ghost old_done = done@;
                done.push(word);
                assert(texts(done@) =~= texts(old_done).push(word@));
                word = String::new();
            } else {
                assert(word@.len() == 0);
            }
        } else {
            let ghost old_word = word@;
            word.push(c);
            proof {
                if i > 0 && !is_white_space(all@[i - 1]) {
                    assert(so_far[so_far.len() - 2] == all@[i - 1]);
                    assert(texts(done@).push(old_word).drop_last() =~= texts(done@));
                } else {
                    assert(old_word =~= Seq::<char>::empty());
                    assert(word@ =~= seq![c]);
                }
            }
        }
        i += 1;
    }
    assert(all@.take(i as int) =~= all@);
    if !word.as_str().is_empty() {
        let ghost old_done = done@;
        done.push(word);
        assert(texts(done@) =~= texts(old_done).push(word@));
    }
    done
}

/// The regular expressions of a filter, one for each of its words in order;
/// the empty filter has none to give.
pub open spec fn filter_patterns(filter: Seq<char>) -> Option<Seq<Seq<char>>> {
    if filter.len() == 0 {
        None
    } else {
        Some(words(filter).map_values(|w: Seq<char>| tag_pattern(w)))
    }
}

/// The regular expressions of a filter, one for each of its words in order;
/// `None` for the empty filter, which keeps every group.
pub fn filter_as_regexs(filter: &str) -> (r: Option<Vec<String>>)
    ensures
        match r {
            Some(patterns) => filter_patterns(filter@) == Some(texts(patterns@)),
            None => filter_patterns(filter@) is None,
        },
{
    if filter.is_empty() {
        None
    } else {
        let tags = words_of(filter);
        let mut patterns: Vec<String> = Vec::new();
        let mut i: usize = 0;
        while i < tags.len()
            invariant
                i <= tags.len(),
                texts(tags@) == words(filter@),
                patterns.len() == i,
                forall|j: int| 0 <= j < i ==> (#[trigger] patterns@[j])@ == tag_pattern(tags@[j]@),
            decreases tags.len() - i,
        {
            patterns.push(filter_tag_as_regex(tags[i].as_str()));
            i += 1;
        }
        assert(texts(patterns@) =~= words(filter@).map_values(|w: Seq<char>| tag_pattern(w))) by {
            assert forall|j: int| 0 <= j < patterns.len() implies texts(patterns@)[j] == tag_pattern(
                words(filter@)[j],
            ) by {
                assert(texts(tags@)[j] == tags@[j]@);
            }
        }
        Some(patterns)
    }
}

/// A compiled set of regular expressions of the `regex` crate.
#[verifier::external_type_specification]
#[verifier::external_body]
pub struct ExRegexSet(RegexSet);

/// The regular expressions that a set was compiled from, in order.
pub uninterp spec fn set_patterns(set: RegexSet) -> Seq<Seq<char>>;

/// Whether the `regex` crate compiles `patterns` into a set.
pub uninterp spec fn patterns_compile(patterns: Seq<Seq<char>>) -> bool;

/// Whether the regular expression `pattern` matches somewhere in `text`.
pub uninterp spec fn pattern_matches(pattern: Seq<char>, text: Seq<char>) -> bool;

/// One of `patterns` matches somewhere in `text`.
pub open spec fn any_matches(patterns: Seq<Seq<char>>, text: Seq<char>) -> bool {
    exists|i: int| 0 <= i < patterns.len() && pattern_matches(#[trigger] patterns[i], text)
}

/// `RegexSet::new`, with its error dropped: whether a set comes back
/// depends on the expressions alone, and a set that comes back holds the
/// expressions it was given, in their order.
#[verifier::external_body]
fn compile_set(patterns: &Vec<String>) -> (r: Option<RegexSet>)
    ensures
        r is Some <==> patterns_compile(texts(patterns@)),
        r matches Some(set) ==> set_patterns(set) == texts(patterns@),
{
    RegexSet::new(patterns).ok()
}

/// `RegexSet::is_match`: true if and only if one of the expressions of the
/// set matches somewhere in `text`.
#[verifier::external_body]
fn set_is_match(set: &RegexSet, text: &str) -> (r: bool)
    ensures
        r == (exists|i: int|
            0 <= i < set_patterns(*set).len() && pattern_matches(
                #[trigger] set_patterns(*set)[i],
                text@,
            )),
{
    set.is_match(text)
}

/// The text of a filter that may be absent.
pub open spec fn filter_text(filter: Option<&str>) -> Option<Seq<char>> {
    match filter {
        Some(f) => Some(f@),
        None => None,
    }
}

/// The regular expressions that a filter puts to work.  There are none when
/// no filter is given, when the filter is empty, and when its expressions do
/// not compile: in each of these cases every group is kept.
pub open spec fn active_patterns(filter: Option<Seq<char>>) -> Option<Seq<Seq<char>>> {
    match filter {
        None => None,
        Some(f) => match filter_patterns(f) {
            None => None,
            Some(patterns) => if patterns_compile(patterns) {
                Some(patterns)
            } else {
                None
            },
        },
    }
}

/// Compiles a filter.  `None` stands for the filter that keeps every group.
pub fn compile(filter: Option<&str>) -> (r: Option<RegexSet>)
    ensures
        match r {
            Some(set) => active_patterns(filter_text(filter)) == Some(set_patterns(set)),
            None => active_patterns(filter_text(filter)) is None,
        },
{
    match filter {
        None => None,
        Some(f) => match filter_as_regexs(f) {
            None => None,
            Some(patterns) => compile_set(&patterns),
        },
    }
}

/// The tags of a group key: the texts between its commas.  A key without a
/// comma is one tag, and so is the empty key.
pub open spec fn tags(key: Seq<char>) -> Seq<Seq<char>>
    decreases key.len(),
{
    if key.len() == 0 {
        seq![Seq::empty()]
    } else {
        let before = tags(key.drop_last());
        let c = key.last();
        if c == ',' {
            before.push(Seq::empty())
        } else {
            before.drop_last().push(before.last().push(c))
        }
    }
}

/// The tags of a group key, each as a string.
pub fn key_tags(key: &str) -> (r: Vec<String>)
    ensures
        texts(r@) == tags(key@),
{
    let all = chars_of(key);
    let mut done: Vec<String> = Vec::new();
    let mut tag = String::new();
    let mut i: usize = 0;
    assert(all@.take(0) =~= Seq::<char>::empty());
    assert(texts(done@).push(tag@) =~= seq![Seq::<char>::empty()]);
    while i < all.len()
        invariant
            i <= all.len(),
            all@ == key@,
            tags(all@.take(i as int)) == texts(done@).push(tag@),
        decreases all.len() - i,
    {
        let c = all[i];
        let ghost so_far = all@.take(i + 1);
        let ghost old_done = done@;
        let ghost old_tag = tag@;
        assert(so_far.drop_last() =~= all@.take(i as int));
        assert(so_far.last() == c);
        if c == ',' {
            done.push(tag);
            tag = String::new();
            assert(texts(done@) =~= texts(old_done).push(old_tag));
        } else {
            tag.push(c);
            assert(texts(old_done).push(old_tag).drop_last() =~= texts(old_done));
        }
        i += 1;
    }
    assert(all@.take(i as int) =~= all@);
    let ghost old_done = done@;
    done.push(tag);
    assert(texts(done@) =~= texts(old_done).push(tag@));
    done
}

/// Whether a filter keeps the group with the key `key`: the filter that
/// puts no expression to work keeps every group, any other keeps the groups
/// with a tag that one of its expressions matches.
pub open spec fn keeps(patterns: Option<Seq<Seq<char>>>, key: Seq<char>) -> bool {
    match patterns {
        None => true,
        Some(ps) => exists|j: int| 0 <= j < tags(key).len() && any_matches(ps, #[trigger] tags(key)[j]),
    }
}

/// Whether a compiled filter keeps the group with the key `key`.
pub fn keeps_group(filter: &Option<RegexSet>, key: &str) -> (r: bool)
    ensures
        r == keeps(
            match *filter {
                Some(set) => Some(set_patterns(set)),
                None => None,
            },
            key@,
        ),
{
    match filter {
        None => true,
        Some(set) => {
            let tokens = key_tags(key);
            let mut i: usize = 0;
            while i < tokens.len()
                invariant
                    i <= tokens.len(),
                    *filter == Some(*set),
                    texts(tokens@) == tags(key@),
                    forall|j: int| 0 <= j < i ==> !any_matches(set_patterns(*set), #[trigger] tags(key@)[j]),
                decreases tokens.len() - i,
            {
                assert(texts(tokens@)[i as int] == tokens@[i as int]@);
                if set_is_match(set, tokens[i].as_str()) {
                    assert(any_matches(set_patterns(*set), tags(key@)[i as int]));
                    return true;
                }
                i += 1;
            }
            false
        },
    }
}

} // verus!
