//! Calendar addresses and their classification as local or remote.

use vstd::prelude::*;
use crate::text::{
    ascii_lower, chars_of, contains_char, lowercase, slice_chars, string_of, to_ascii_lower,
    to_lowercase, trim_chars, trimmed,
};
use crate::scheduling::calendar::Uri;

verus! {

/// A calendar user address, normalized, and whether the account owns it.
#[derive(Clone, Debug)]
pub struct Email {
    pub address: String,
    pub is_local: bool,
}

/// The mathematical value of an [`Email`].
pub struct EmailView {
    pub address: Seq<char>,
    pub is_local: bool,
}

impl View for Email {
    type V = EmailView;

    open spec fn view(&self) -> EmailView {
        EmailView { address: self.address@, is_local: self.is_local }
    }
}

/// The views of a list of addresses, in order.
pub open spec fn emails_view(v: Seq<Email>) -> Seq<EmailView> {
    v.map_values(|e: Email| e@)
}

/// The texts of a list of strings, in order.
pub open spec fn texts(v: Seq<String>) -> Seq<Seq<char>> {
    v.map_values(|s: String| s@)
}

/// The scheme that a calendar address may carry, in lower case.
pub open spec fn mailto() -> Seq<char> {
    seq!['m', 'a', 'i', 'l', 't', 'o', ':']
}

/// Whether `s` starts with the scheme `mailto:`, in any letter case.
pub open spec fn has_mailto(s: Seq<char>) -> bool {
    s.len() >= 7 && forall|i: int| 0 <= i < 7 ==> ascii_lower(#[trigger] s[i]) == mailto()[i]
}

/// `s` without a leading `mailto:`.
pub open spec fn without_mailto(s: Seq<char>) -> Seq<char> {
    if has_mailto(s) {
        s.subrange(7, s.len() as int)
    } else {
        s
    }
}

/// The normalized form of a calendar address: surrounding white space
/// removed, a leading `mailto:` removed, white space removed again, and the
/// rest in lower case.
pub open spec fn normalized(text: Seq<char>) -> Seq<char> {
    lowercase(trimmed(without_mailto(trimmed(text))))
}

/// What a text classifies as: nothing unless its normalized form holds an
/// `@`; else that form, local exactly if it is one of `accounts`.
pub open spec fn classified(text: Seq<char>, accounts: Seq<Seq<char>>) -> Option<EmailView> {
    let address = normalized(text);
    if address.contains('@') {
        Some(EmailView { address, is_local: accounts.contains(address) })
    } else {
        None
    }
}

/// What a URI classifies as: a location as its text, inline data as nothing.
pub open spec fn classified_uri(uri: Uri, accounts: Seq<Seq<char>>) -> Option<EmailView> {
    match uri {
        Uri::Location(text) => classified(text@, accounts),
        Uri::Data => None,
    }
}

/// The addresses that a list of URIs classifies as, in order; the URIs that
/// classify as nothing are left out.
pub open spec fn classified_uris(uris: Seq<Uri>, accounts: Seq<Seq<char>>) -> Seq<EmailView>
    decreases uris.len(),
{
    if uris.len() == 0 {
        Seq::empty()
    } else {
        let before = classified_uris(uris.drop_last(), accounts);
        match classified_uri(uris.last(), accounts) {
            Some(email) => before.push(email),
            None => before,
        }
    }
}

/// Whether `c`, folded to lower case, is the character `lower`.
fn is_letter(c: char, lower: char) -> (r: bool)
    ensures
        r == (ascii_lower(c) == lower),
{
    to_ascii_lower(c) == lower
}

/// Whether `v` starts with `mailto:` in any letter case.
fn starts_with_mailto(v: &Vec<char>) -> (r: bool)
    ensures
        r == has_mailto(v@),
{
    if v.len() < 7 {
        return false;
    }
    let r = is_letter(v[0], 'm') && is_letter(v[1], 'a') && is_letter(v[2], 'i') && is_letter(
        v[3],
        'l',
    ) && is_letter(v[4], 't') && is_letter(v[5], 'o') && is_letter(v[6], ':');
    proof {
        let m = mailto();
        assert(m[0] == 'm' && m[1] == 'a' && m[2] == 'i' && m[3] == 'l' && m[4] == 't' && m[5]
            == 'o' && m[6] == ':');
    }
    r
}

/// Whether `accounts` holds `address`.
pub fn is_account(address: &String, accounts: &[String]) -> (r: bool)
    ensures
        r == texts(accounts@).contains(address@),
{
    let mut i: usize = 0;
    while i < accounts.len()
        invariant
            i <= accounts.len(),
            forall|j: int| 0 <= j < i ==> texts(accounts@)[j] != address@,
        decreases accounts.len() - i,
    {
        if accounts[i] == *address {
            assert(texts(accounts@)[i as int] == address@);
            return true;
        }
        i += 1;
    }
    false
}

impl Email {
    /// Classifies a calendar address, bare or with the scheme `mailto:`.
    ///
    /// The address is normalized; a text whose normalized form holds no `@`
    /// is no address. The address is local exactly if the normalized form is
    /// one of `accounts`.
    pub fn classify(text: &str, accounts: &[String]) -> (r: Option<Email>)
        ensures
            match r {
                Some(email) => classified(text@, texts(accounts@)) == Some(email@),
                None => classified(text@, texts(accounts@)) is None,
            },
    {
        let outer = trim_chars(&chars_of(text));
        let inner = if starts_with_mailto(&outer) {
            slice_chars(&outer, 7, outer.len())
        } else {
            outer
        };
        let bare = string_of(&trim_chars(&inner));
        let address = to_lowercase(bare.as_str());
        if contains_char(&chars_of(address.as_str()), '@') {
            let is_local = is_account(&address, accounts);
            Some(Email { address, is_local })
        } else {
            None
        }
    }

    /// Classifies the address that a URI holds; inline data holds none.
    pub fn from_uri(uri: &Uri, accounts: &[String]) -> (r: Option<Email>)
        ensures
            match r {
                Some(email) => classified_uri(*uri, texts(accounts@)) == Some(email@),
                None => classified_uri(*uri, texts(accounts@)) is None,
            },
    {
        match uri {
            Uri::Location(text) => Email::classify(text.as_str(), accounts),
            Uri::Data => None,
        }
    }

    /// Classifies each URI of a list and keeps, in order, those that hold an
    /// address.
    pub fn from_uris(uris: &Vec<Uri>, accounts: &[String]) -> (r: Vec<Email>)
        ensures
            emails_view(r@) == classified_uris(uris@, texts(accounts@)),
    {
        let mut r: Vec<Email> = Vec::new();
        let mut i: usize = 0;
        assert(uris@.take(0) =~= Seq::<Uri>::empty());
        assert(emails_view(r@) =~= Seq::<EmailView>::empty());
        while i < uris.len()
            invariant
                i <= uris.len(),
                emails_view(r@) == classified_uris(uris@.take(i as int), texts(accounts@)),
            decreases uris.len() - i,
        {
            let ghost before = r@;
            proof {
                let next = uris@.take(i + 1);
                assert(next.drop_last() =~= uris@.take(i as int));
                assert(next.last() == uris@[i as int]);
            }
            match Email::from_uri(&uris[i], accounts) {
                Some(email) => {
                    r.push(email);
                    assert(emails_view(r@) =~= emails_view(before).push(email@));
                },
                None => {},
            }
            i += 1;
        }
        assert(uris@.take(uris.len() as int) =~= uris@);
        r
    }
}

} // verus!
