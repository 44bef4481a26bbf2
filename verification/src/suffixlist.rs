//! The public suffix list: the domain names under which unrelated parties
//! register names of their own.

use vstd::prelude::*;
use ahash::AHashSet;
use crate::scheduling::email::texts;
use crate::text::{
    chars_of, ends_with, has_prefix, has_suffix, lowercase, slice_chars, starts_with, string_of,
    to_lowercase, trim_chars, trimmed,
};

verus! {

/// The hash set of `ahash`.
#[verifier::external_type_specification]
#[verifier::external_body]
#[verifier::reject_recursive_types(T)]
#[verifier::reject_recursive_types(S)]
pub struct ExAHashSet<T, S>(AHashSet<T, S>);

/// The texts that a set of strings holds.
pub uninterp spec fn strings_of(set: AHashSet<String>) -> Set<Seq<char>>;

/// The set that holds no text.
pub open spec fn no_strings() -> Set<Seq<char>> {
    Set::empty()
}

/// Trusted: `AHashSet::new`, which makes a set that holds nothing.
#[verifier::external_body]
pub(crate) fn new_strings() -> (set: AHashSet<String>)
    ensures
        strings_of(set) == no_strings(),
{
    AHashSet::new()
}

/// Trusted: `HashSet::insert` of the standard library, reached through the
/// `DerefMut` of `AHashSet`: afterwards the set holds the text of `s` besides
/// what it held; the result tells whether the text was new. Strings are equal
/// where their texts are.
#[verifier::external_body]
pub(crate) fn insert_string(set: &mut AHashSet<String>, s: String) -> (fresh: bool)
    ensures
        strings_of(*final(set)) == strings_of(*old(set)).insert(s@),
        fresh == !strings_of(*old(set)).contains(s@),
{
    set.insert(s)
}

/// Trusted: `HashSet::contains` of the standard library, reached through the
/// `Deref` of `AHashSet`: whether the set holds the text of `s`.
#[verifier::external_body]
pub(crate) fn contains_string(set: &AHashSet<String>, s: &str) -> (r: bool)
    ensures
        r == strings_of(*set).contains(s@),
{
    set.contains(s)
}

/// A public suffix list: the suffixes, the exceptions to the wildcard rules,
/// and the wildcard rules, each without its leading `*`.
#[derive(Debug)]
pub struct PublicSuffix {
    pub suffixes: AHashSet<String>,
    pub exceptions: AHashSet<String>,
    pub wildcards: Vec<String>,
}

/// The mathematical value of a [`PublicSuffix`].
pub struct PublicSuffixView {
    pub suffixes: Set<Seq<char>>,
    pub exceptions: Set<Seq<char>>,
    pub wildcards: Seq<Seq<char>>,
}

impl View for PublicSuffix {
    type V = PublicSuffixView;

    open spec fn view(&self) -> PublicSuffixView {
        PublicSuffixView {
            suffixes: strings_of(self.suffixes),
            exceptions: strings_of(self.exceptions),
            wildcards: texts(self.wildcards@),
        }
    }
}

/// Whether one of `wildcards` is the end of `suffix`.
pub open spec fn matches_wildcard(wildcards: Seq<Seq<char>>, suffix: Seq<char>) -> bool {
    exists|i: int| 0 <= i < wildcards.len() && ends_with(suffix, #[trigger] wildcards[i])
}

/// Whether `suffix` is a public suffix by the list `list`: it is one of the
/// suffixes, or it ends with a wildcard rule and is no exception.
pub open spec fn is_public(list: PublicSuffixView, suffix: Seq<char>) -> bool {
    list.suffixes.contains(suffix) || (!list.exceptions.contains(suffix) && matches_wildcard(
        list.wildcards,
        suffix,
    ))
}

/// The position of the first line feed in `s`, or the length of `s` if it
/// holds none.
pub open spec fn line_end(s: Seq<char>) -> int
    decreases s.len(),
{
    if s.len() == 0 || s[0] == '\n' {
        0
    } else {
        1 + line_end(s.drop_first())
    }
}

/// The list after one line of a list file is read. The line is trimmed and
/// put in lower case. A line that starts with `//` is a comment. A line that
/// starts with `*` is a wildcard rule, one that starts with `!` an exception,
/// both kept without that character. Any other line is a suffix.
pub open spec fn with_line(list: PublicSuffixView, line: Seq<char>) -> PublicSuffixView {
    let rule = lowercase(trimmed(line));
    if starts_with(rule, seq!['/', '/']) {
        list
    } else if rule.len() > 0 && rule[0] == '*' {
        PublicSuffixView { wildcards: list.wildcards.push(rule.subrange(1, rule.len() as int)), ..list }
    } else if rule.len() > 0 && rule[0] == '!' {
        PublicSuffixView {
            exceptions: list.exceptions.insert(rule.subrange(1, rule.len() as int)),
            ..list
        }
    } else {
        PublicSuffixView { suffixes: list.suffixes.insert(rule), ..list }
    }
}

/// The list after the lines of `text` are read in order. Lines end at a line
/// feed; the last line needs none.
pub open spec fn with_lines(list: PublicSuffixView, text: Seq<char>) -> PublicSuffixView
    decreases text.len(),
{
    if text.len() == 0 {
        list
    } else {
        let end = line_end(text);
        let after = with_line(list, text.subrange(0, end));
        if 0 <= end < text.len() {
            with_lines(after, text.subrange(end + 1, text.len() as int))
        } else {
            after
        }
    }
}

/// The list that holds nothing.
pub open spec fn empty_list() -> PublicSuffixView {
    PublicSuffixView { suffixes: Set::empty(), exceptions: Set::empty(), wildcards: Seq::empty() }
}

/// The list that a list file gives: its lines read in order, and the suffix
/// `onion` besides.
pub open spec fn list_of(text: Seq<char>) -> PublicSuffixView {
    let list = with_lines(empty_list(), text);
    PublicSuffixView { suffixes: list.suffixes.insert("onion"@), ..list }
}

/// The first line feed of a text lies within it.
proof fn lemma_line_end(s: Seq<char>)
    ensures
        0 <= line_end(s) <= s.len(),
        forall|i: int| 0 <= i < line_end(s) ==> s[i] != '\n',
        line_end(s) < s.len() ==> s[line_end(s)] == '\n',
    decreases s.len(),
{
    if !(s.len() == 0 || s[0] == '\n') {
        let rest = s.drop_first();
        lemma_line_end(rest);
        assert forall|i: int| 0 <= i < line_end(s) implies s[i] != '\n' by {
            if i > 0 {
                assert(s[i] == rest[i - 1]);
            }
        }
        if line_end(s) < s.len() {
            assert(s[line_end(s)] == rest[line_end(rest)]);
        }
    }
}

/// The first line feed of a text is where no earlier character is one.
proof fn lemma_line_end_is(s: Seq<char>, k: int)
    requires
        0 <= k <= s.len(),
        forall|i: int| 0 <= i < k ==> s[i] != '\n',
        k < s.len() ==> s[k] == '\n',
    ensures
        line_end(s) == k,
{
    lemma_line_end(s);
}

impl Default for PublicSuffix {
    fn default() -> (r: PublicSuffix)
        ensures
            r@ == empty_list(),
    {
        PublicSuffix::new()
    }
}

impl PublicSuffix {
    /// The list that holds nothing.
    pub fn new() -> (r: PublicSuffix)
        ensures
            r@ == empty_list(),
    {
        let r = PublicSuffix {
            suffixes: new_strings(),
            exceptions: new_strings(),
            wildcards: Vec::new(),
        };
        assert(texts(r.wildcards@) =~= Seq::<Seq<char>>::empty());
        r
    }

    /// Whether `suffix` is a public suffix.
    pub fn contains(&self, suffix: &str) -> (r: bool)
        ensures
            r == is_public(self@, suffix@),
    {
        if contains_string(&self.suffixes, suffix) {
            return true;
        }
        if contains_string(&self.exceptions, suffix) {
            return false;
        }
        let name = chars_of(suffix);
        let mut i: usize = 0;
        while i < self.wildcards.len()
            invariant
                i <= self.wildcards.len(),
                name@ == suffix@,
                !strings_of(self.suffixes).contains(suffix@),
                !strings_of(self.exceptions).contains(suffix@),
                forall|j: int| 0 <= j < i ==> !ends_with(suffix@, #[trigger] texts(self.wildcards@)[j]),
            decreases self.wildcards.len() - i,
        {
            let wildcard = chars_of(self.wildcards[i].as_str());
            if has_suffix(&name, &wildcard) {
                assert(ends_with(suffix@, texts(self.wildcards@)[i as int]));
                return true;
            }
            i += 1;
        }
        false
    }

    /// Reads one line of a list file into the list.
    pub fn read_line(&mut self, line: &Vec<char>)
        ensures
            final(self)@ == with_line(old(self)@, line@),
    {
        let bare = string_of(&trim_chars(line));
        let rule = chars_of(to_lowercase(bare.as_str()).as_str());
        let mut comment: Vec<char> = Vec::new();
        comment.push('/');
        comment.push('/');
        assert(comment@ =~= seq!['/', '/']);
        if has_prefix(&rule, &comment) {
            return ;
        }
        if rule.len() > 0 && rule[0] == '*' {
            let ghost before = self.wildcards@;
            let rest = string_of(&slice_chars(&rule, 1, rule.len()));
            self.wildcards.push(rest);
            assert(texts(self.wildcards@) =~= texts(before).push(rest@));
        } else if rule.len() > 0 && rule[0] == '!' {
            insert_string(&mut self.exceptions, string_of(&slice_chars(&rule, 1, rule.len())));
        } else {
            insert_string(&mut self.suffixes, string_of(&rule));
        }
    }

    /// Reads a list file: each line is a suffix, a wildcard rule, an
    /// exception or a comment. The suffix `onion` is always part of the list.
    pub fn from_list(list: &str) -> (r: PublicSuffix)
        ensures
            r@ == list_of(list@),
    {
        let text = chars_of(list);
        let mut ps = PublicSuffix::new();
        let mut pos: usize = 0;
        assert(text@.subrange(0, text@.len() as int) =~= text@);
        while pos < text.len()
            invariant
                pos <= text.len(),
                with_lines(empty_list(), text@) == with_lines(
                    ps@,
                    text@.subrange(pos as int, text@.len() as int),
                ),
            decreases text.len() - pos,
        {
            let ghost rest = text@.subrange(pos as int, text@.len() as int);
            let mut end: usize = pos;
            while end < text.len() && text[end] != '\n'
                invariant
                    pos <= end <= text.len(),
                    forall|i: int| pos <= i < end ==> text@[i] != '\n',
                decreases text.len() - end,
            {
                end += 1;
            }
            proof {
                assert forall|i: int| 0 <= i < end - pos implies rest[i] != '\n' by {
                    assert(rest[i] == text@[pos + i]);
                }
                lemma_line_end_is(rest, end - pos);
                assert(rest.subrange(0, end - pos) =~= text@.subrange(pos as int, end as int));
            }
            let line = slice_chars(&text, pos, end);
            ps.read_line(&line);
            if end < text.len() {
                assert(rest.subrange(end - pos + 1, rest.len() as int) =~= text@.subrange(
                    end + 1,
                    text@.len() as int,
                ));
                pos = end + 1;
            } else {
                assert(text@.subrange(text@.len() as int, text@.len() as int).len() == 0);
                pos = end;
            }
        }
        insert_string(&mut ps.suffixes, "onion".to_owned());
        ps
    }
}

/// Where a list file is to be had from.
#[derive(Clone, Debug)]
pub enum Source {
    /// A web address, to be fetched.
    Http,
    /// A local file, named by the path.
    File(String),
    /// Neither.
    Invalid,
}

/// The mathematical value of a [`Source`].
pub enum SourceView {
    Http,
    File(Seq<char>),
    Invalid,
}

impl View for Source {
    type V = SourceView;

    open spec fn view(&self) -> SourceView {
        match *self {
            Source::Http => SourceView::Http,
            Source::File(path) => SourceView::File(path@),
            Source::Invalid => SourceView::Invalid,
        }
    }
}

/// Where the list file that `value` names is to be had from: the web for
/// `https://` and `http://`, a local file for `file://`.
pub open spec fn source_of(value: Seq<char>) -> SourceView {
    if starts_with(value, "https://"@) || starts_with(value, "http://"@) {
        SourceView::Http
    } else if starts_with(value, "file://"@) {
        SourceView::File(value.subrange("file://"@.len() as int, value.len() as int))
    } else {
        SourceView::Invalid
    }
}

impl Source {
    /// Where the list file that `value` names is to be had from.
    pub fn of(value: &str) -> (r: Source)
        ensures
            r@ == source_of(value@),
    {
        let v = chars_of(value);
        let file = chars_of("file://");
        if has_prefix(&v, &chars_of("https://")) || has_prefix(&v, &chars_of("http://")) {
            Source::Http
        } else if has_prefix(&v, &file) {
            Source::File(string_of(&slice_chars(&v, file.len(), v.len())))
        } else {
            Source::Invalid
        }
    }

    /// Whether the list file that `value` names is compressed: its name ends
    /// with `.gz`.
    pub fn is_compressed(value: &str) -> (r: bool)
        ensures
            r == ends_with(value@, ".gz"@),
    {
        has_suffix(&chars_of(value), &chars_of(".gz"))
    }
}

} // verus!
