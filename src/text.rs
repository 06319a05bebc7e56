//! Case folding, trimming and substring tests on text, and the text filter
//! that decides whether a record answers a query.
use vstd::prelude::*;

verus! {

/// `needle` occurs in `hay` as a contiguous run of characters.
pub open spec fn is_substring(needle: Seq<char>, hay: Seq<char>) -> bool {
    exists|i: int|
        0 <= i && i + needle.len() <= hay.len() && #[trigger] hay.subrange(i, i + needle.len())
            == needle
}

/// What `str::to_lowercase` makes of a text.
pub uninterp spec fn lower_of(s: Seq<char>) -> Seq<char>;

/// A character with the Unicode `White_Space` property.
pub open spec fn is_white(c: char) -> bool {
    let u = c as u32;
    (0x09 <= u <= 0x0D) || u == 0x20 || u == 0x85 || u == 0xA0 || u == 0x1680 || (0x2000 <= u
        <= 0x200A) || u == 0x2028 || u == 0x2029 || u == 0x202F || u == 0x205F || u == 0x3000
}

/// `s[a..b]` is `s` without its leading and trailing white space.
pub open spec fn trim_bounds(s: Seq<char>, a: int, b: int) -> bool {
    &&& 0 <= a <= b <= s.len()
    &&& forall|i: int| 0 <= i < a ==> is_white(#[trigger] s[i])
    &&& forall|i: int| b <= i < s.len() ==> is_white(#[trigger] s[i])
    &&& a < b ==> !is_white(s[a]) && !is_white(s[b - 1])
}

/// Relies on `str::to_lowercase`: the folded text depends on the characters alone.
#[verifier::external_body]
pub(crate) fn to_lower(s: &str) -> (r: String)
    ensures
        r@ == lower_of(s@),
        s@.len() == 0 ==> r@.len() == 0,
{
    s.to_lowercase()
}

/// `t` is `s` without its leading and trailing white space.
pub open spec fn is_trim_of(t: Seq<char>, s: Seq<char>) -> bool {
    exists|a: int, b: int| #[trigger] trim_bounds(s, a, b) && t == s.subrange(a, b)
}

/// Relies on `str::trim`: the text without the leading and trailing
/// characters that have the Unicode `White_Space` property.
#[verifier::external_body]
pub(crate) fn trim_text<'a>(s: &'a str) -> (r: &'a str)
    ensures
        is_trim_of(r@, s@),
{
    s.trim()
}

/// Relies on `str::contains` with a `&str` pattern: true exactly when the
/// pattern occurs in the text as a contiguous run.
#[verifier::external_body]
pub(crate) fn contains_text(hay: &str, needle: &str) -> (r: bool)
    ensures
        r == is_substring(needle@, hay@),
{
    hay.contains(needle)
}

/// The views of a sequence of strings.
pub open spec fn views_of(v: Seq<String>) -> Seq<Seq<char>> {
    v.map_values(|s: String| s@)
}

/// Some tag holds `needle` as a substring.
pub open spec fn some_tag_holds(needle: Seq<char>, tags: Seq<Seq<char>>) -> bool {
    exists|j: int| 0 <= j < tags.len() && is_substring(needle, #[trigger] tags[j])
}

/// The text filter on texts that are already case-folded: the query occurs in
/// the content or in one of the tags.
pub open spec fn folded_match(query: Seq<char>, content: Seq<char>, tags: Seq<Seq<char>>) -> bool {
    is_substring(query, content) || some_tag_holds(query, tags)
}

/// The text filter: the case-folded query occurs in the case-folded content or
/// in one of the case-folded tags.
pub open spec fn text_match(query: Seq<char>, content: Seq<char>, tags: Seq<Seq<char>>) -> bool {
    folded_match(lower_of(query), lower_of(content), tags.map_values(|t: Seq<char>| lower_of(t)))
}

/// Every character of the text is white space, so that trimming leaves
/// nothing.
pub open spec fn is_blank(s: Seq<char>) -> bool {
    forall|i: int| 0 <= i < s.len() ==> is_white(#[trigger] s[i])
}

/// Decides the text filter on texts that are already case-folded.
pub fn matches_folded(query: &str, content: &str, tags: &Vec<String>) -> (r: bool)
    ensures
        r == folded_match(query@, content@, views_of(tags@)),
{
    if contains_text(content, query) {
        return true;
    }
    let mut j: usize = 0;
    while j < tags.len()
        invariant
            j <= tags.len(),
            forall|t: int| 0 <= t < j ==> !is_substring(query@, #[trigger] tags@[t]@),
        decreases tags.len() - j,
    {
        if contains_text(tags[j].as_str(), query) {
            assert(views_of(tags@)[j as int] == tags@[j as int]@);
            return true;
        }
        j += 1;
    }
    assert(!some_tag_holds(query@, views_of(tags@))) by {
        assert forall|t: int| 0 <= t < views_of(tags@).len() implies !is_substring(
            query@,
            #[trigger] views_of(tags@)[t],
        ) by {
            assert(views_of(tags@)[t] == tags@[t]@);
        }
    }
    false
}

/// Decides the text filter: folds the query, the content and each tag, then
/// tests for a substring.
pub fn text_matches(query: &str, content: &str, tags: &Vec<String>) -> (r: bool)
    ensures
        r == text_match(query@, content@, views_of(tags@)),
        query@.len() == 0 ==> r,
{
    let q = to_lower(query);
    let c = to_lower(content);
    let mut folded: Vec<String> = Vec::new();
    let mut j: usize = 0;
    while j < tags.len()
        invariant
            j <= tags.len(),
            folded@.len() == j,
            forall|t: int| 0 <= t < j ==> #[trigger] folded@[t]@ == lower_of(tags@[t]@),
        decreases tags.len() - j,
    {
        folded.push(to_lower(tags[j].as_str()));
        j += 1;
    }
    let r = matches_folded(q.as_str(), c.as_str(), &folded);
    assert(views_of(folded@) =~= views_of(tags@).map_values(|t: Seq<char>| lower_of(t)));
    proof {
        if query@.len() == 0 {
            assert(q@.len() == 0);
            assert(c@.subrange(0, 0 + q@.len() as int) =~= q@);
            assert(is_substring(q@, c@));
        }
    }
    r
}

/// Tells whether a text is empty once trimmed, that is, whether it is all
/// white space.
pub fn blank(s: &str) -> (r: bool)
    ensures
        r == is_blank(s@),
{
    let t = trim_text(s);
    let r = t.is_empty();
    proof {
        let (a, b) = choose|a: int, b: int| #[trigger] trim_bounds(s@, a, b) && t@ == s@.subrange(a, b);
        if a < b {
            assert(!is_white(s@[a]));
        } else {
            assert forall|i: int| 0 <= i < s@.len() implies is_white(#[trigger] s@[i]) by {
                if i >= b {
                } else {
                    assert(i < a);
                }
            }
        }
    }
    r
}

} // verus!
