//! The closed vocabulary of OAuth2 permission scopes, with set semantics
//! and a space-separated textual form.

use vstd::prelude::*;

verus! {

#[derive(Clone, Copy, Debug, PartialEq, Eq, Structural)]
pub enum OAuth2Scope {
    /// Grants nothing special; supported because clients ask for it.
    Basic,
    /// Releases the user's email address; honored only when one is on file.
    Email,
    /// Allows test logins; grants nothing by itself.
    Dev,
}

/// The textual form of one scope.
pub open spec fn scope_text(s: OAuth2Scope) -> Seq<char> {
    match s {
        OAuth2Scope::Basic => seq!['b', 'a', 's', 'i', 'c'],
        OAuth2Scope::Email => seq!['e', 'm', 'a', 'i', 'l'],
        OAuth2Scope::Dev => seq!['d', 'e', 'v'],
    }
}

/// The scope a word denotes, if any.
pub open spec fn scope_of_word(w: Seq<char>) -> Option<OAuth2Scope> {
    if w =~= scope_text(OAuth2Scope::Basic) {
        Some(OAuth2Scope::Basic)
    } else if w =~= scope_text(OAuth2Scope::Email) {
        Some(OAuth2Scope::Email)
    } else if w =~= scope_text(OAuth2Scope::Dev) {
        Some(OAuth2Scope::Dev)
    } else {
        None
    }
}

/// ASCII whitespace, as the parser splits on it.
pub open spec fn is_scope_space(c: char) -> bool {
    c == ' ' || c == '\t' || c == '\n' || c == '\x0C' || c == '\r'
}

/// One pass over the text: `cur` is the word being read, `acc` the scopes
/// already recognized. Any unknown word fails the whole parse.
pub open spec fn parse_scopes_rec(
    s: Seq<char>,
    i: int,
    cur: Seq<char>,
    acc: Set<OAuth2Scope>,
) -> Option<Set<OAuth2Scope>>
    decreases s.len() - i,
{
    if i < 0 || i >= s.len() {
        if cur.len() == 0 {
            Some(acc)
        } else {
            match scope_of_word(cur) {
                Some(sc) => Some(acc.insert(sc)),
                None => None,
            }
        }
    } else if is_scope_space(s[i]) {
        if cur.len() == 0 {
            parse_scopes_rec(s, i + 1, Seq::empty(), acc)
        } else {
            match scope_of_word(cur) {
                Some(sc) => parse_scopes_rec(s, i + 1, Seq::empty(), acc.insert(sc)),
                None => None,
            }
        }
    } else {
        parse_scopes_rec(s, i + 1, cur.push(s[i]), acc)
    }
}

/// What parsing a scope string yields: the set of named scopes, or nothing
/// if any word is unknown.
pub open spec fn parse_scopes(s: Seq<char>) -> Option<Set<OAuth2Scope>> {
    parse_scopes_rec(s, 0, Seq::empty(), Set::empty())
}

/// The canonical textual form of a scope set: members in a fixed order,
/// joined by single spaces.
pub open spec fn scopes_text(set: Set<OAuth2Scope>) -> Seq<char> {
    let b = set.contains(OAuth2Scope::Basic);
    let e = set.contains(OAuth2Scope::Email);
    let d = set.contains(OAuth2Scope::Dev);
    scopes_text_bits(b, e, d)
}

/// The same, spelled out by membership, so that each case is a literal.
pub open spec fn scopes_text_bits(b: bool, e: bool, d: bool) -> Seq<char> {
    let bt = scope_text(OAuth2Scope::Basic);
    let et = scope_text(OAuth2Scope::Email);
    let dt = scope_text(OAuth2Scope::Dev);
    let sp = seq![' '];
    if b {
        if e {
            if d {
                bt + sp + et + sp + dt
            } else {
                bt + sp + et
            }
        } else {
            if d {
                bt + sp + dt
            } else {
                bt
            }
        }
    } else {
        if e {
            if d {
                et + sp + dt
            } else {
                et
            }
        } else {
            if d {
                dt
            } else {
                Seq::empty()
            }
        }
    }
}

/// A set of scopes; its view is the mathematical set of members.
#[derive(Clone, Copy, Debug)]
pub struct OAuth2Scopes {
    basic: bool,
    email: bool,
    dev: bool,
}

impl View for OAuth2Scopes {
    type V = Set<OAuth2Scope>;

    closed spec fn view(&self) -> Set<OAuth2Scope> {
        Set::new(
            |s: OAuth2Scope|
                match s {
                    OAuth2Scope::Basic => self.basic,
                    OAuth2Scope::Email => self.email,
                    OAuth2Scope::Dev => self.dev,
                },
        )
    }
}

impl Default for OAuth2Scopes {
    fn default() -> (r: Self)
        ensures
            r@ == Set::<OAuth2Scope>::empty(),
    {
        let r = OAuth2Scopes { basic: false, email: false, dev: false };
        proof {
            assert(r@ =~= Set::<OAuth2Scope>::empty());
        }
        r
    }
}

impl OAuth2Scopes {
    /// The empty scope set.
    pub fn empty() -> (r: Self)
        ensures
            r@ == Set::<OAuth2Scope>::empty(),
    {
        let r = OAuth2Scopes { basic: false, email: false, dev: false };
        proof {
            assert(r@ =~= Set::<OAuth2Scope>::empty());
        }
        r
    }

    pub fn contains(&self, scope: OAuth2Scope) -> (r: bool)
        ensures
            r == self@.contains(scope),
    {
        match scope {
            OAuth2Scope::Basic => self.basic,
            OAuth2Scope::Email => self.email,
            OAuth2Scope::Dev => self.dev,
        }
    }

    pub fn insert(&mut self, scope: OAuth2Scope)
        ensures
            final(self)@ == old(self)@.insert(scope),
    {
        match scope {
            OAuth2Scope::Basic => self.basic = true,
            OAuth2Scope::Email => self.email = true,
            OAuth2Scope::Dev => self.dev = true,
        }
        proof {
            assert(self@ =~= old(self)@.insert(scope));
        }
    }

    pub fn remove(&mut self, scope: OAuth2Scope)
        ensures
            final(self)@ == old(self)@.remove(scope),
    {
        match scope {
            OAuth2Scope::Basic => self.basic = false,
            OAuth2Scope::Email => self.email = false,
            OAuth2Scope::Dev => self.dev = false,
        }
        proof {
            assert(self@ =~= old(self)@.remove(scope));
        }
    }

    /// Parses a space-separated scope list; fails if any word is unknown.
    pub fn from_str(s: &str) -> (r: Result<OAuth2Scopes, ()>)
        ensures
            match r {
                Ok(set) => parse_scopes(s@) == Some(set@),
                Err(_) => parse_scopes(s@) is None,
            },
    {
        let len = s.unicode_len();
        let mut cur: Vec<char> = Vec::new();
        let mut acc = OAuth2Scopes::empty();
        let mut i: usize = 0;
        while i < len
            invariant
                i <= len,
                len == s@.len(),
                parse_scopes_rec(s@, i as int, cur@, acc@) == parse_scopes(s@),
            decreases len - i,
        {
            let c = s.get_char(i);
            if c == ' ' || c == '\t' || c == '\n' || c == '\x0C' || c == '\r' {
                if cur.len() > 0 {
                    match word_to_scope(&cur) {
                        Some(sc) => {
                            acc.insert(sc);
                            cur = Vec::new();
                        },
                        None => {
                            return Err(());
                        },
                    }
                }
                proof {
                    assert(cur@ =~= Seq::<char>::empty());
                }
            } else {
                cur.push(c);
            }
            i = i + 1;
        }
        if cur.len() > 0 {
            match word_to_scope(&cur) {
                Some(sc) => {
                    acc.insert(sc);
                },
                None => {
                    return Err(());
                },
            }
        }
        Ok(acc)
    }

    /// The canonical textual form: members joined by single spaces.
    pub fn to_text(&self) -> (r: String)
        ensures
            r@ == scopes_text(self@),
    {
        let mut out: Vec<char> = Vec::new();
        let mut first = true;
        if self.basic {
            push_scope_word(&mut out, OAuth2Scope::Basic);
            first = false;
        }
        if self.email {
            if !first {
                out.push(' ');
            }
            push_scope_word(&mut out, OAuth2Scope::Email);
            first = false;
        }
        if self.dev {
            if !first {
                out.push(' ');
            }
            push_scope_word(&mut out, OAuth2Scope::Dev);
        }
        proof {
            assert(self@.contains(OAuth2Scope::Basic) == self.basic);
            assert(self@.contains(OAuth2Scope::Email) == self.email);
            assert(self@.contains(OAuth2Scope::Dev) == self.dev);
            assert(out@ =~= scopes_text_bits(self.basic, self.email, self.dev));
        }
        crate::utils::chars_to_string(&out)
    }
}

/// The scope a word denotes, if any.
pub fn word_to_scope(w: &Vec<char>) -> (r: Option<OAuth2Scope>)
    ensures
        r == scope_of_word(w@),
{
    if w.len() == 5 && w[0] == 'b' && w[1] == 'a' && w[2] == 's' && w[3] == 'i' && w[4] == 'c' {
        proof {
            assert(w@ =~= scope_text(OAuth2Scope::Basic));
        }
        Some(OAuth2Scope::Basic)
    } else if w.len() == 5 && w[0] == 'e' && w[1] == 'm' && w[2] == 'a' && w[3] == 'i' && w[4]
        == 'l' {
        proof {
            assert(w@ =~= scope_text(OAuth2Scope::Email));
        }
        Some(OAuth2Scope::Email)
    } else if w.len() == 3 && w[0] == 'd' && w[1] == 'e' && w[2] == 'v' {
        proof {
            assert(w@ =~= scope_text(OAuth2Scope::Dev));
        }
        Some(OAuth2Scope::Dev)
    } else {
        proof {
            if w@ =~= scope_text(OAuth2Scope::Basic) {
                assert(false);
            }
            if w@ =~= scope_text(OAuth2Scope::Email) {
                assert(false);
            }
            if w@ =~= scope_text(OAuth2Scope::Dev) {
                assert(false);
            }
        }
        None
    }
}

/// Appends the textual form of one scope.
fn push_scope_word(out: &mut Vec<char>, scope: OAuth2Scope)
    ensures
        final(out)@ == old(out)@ + scope_text(scope),
{
    match scope {
        OAuth2Scope::Basic => {
            out.push('b');
            out.push('a');
            out.push('s');
            out.push('i');
            out.push('c');
        },
        OAuth2Scope::Email => {
            out.push('e');
            out.push('m');
            out.push('a');
            out.push('i');
            out.push('l');
        },
        OAuth2Scope::Dev => {
            out.push('d');
            out.push('e');
            out.push('v');
        },
    }
    proof {
        assert(out@ =~= old(out)@ + scope_text(scope));
    }
}

/// Parsing the canonical text of a scope set gives the set back: the
/// round trip holds for every set, whatever order the text is read in.
pub proof fn lemma_scopes_round_trip(set: Set<OAuth2Scope>)
    ensures
        parse_scopes(scopes_text(set)) == Some(set),
{
    let b = set.contains(OAuth2Scope::Basic);
    let e = set.contains(OAuth2Scope::Email);
    let d = set.contains(OAuth2Scope::Dev);
    reveal_with_fuel(parse_scopes_rec, 20);
    assert(set =~= set_of_bits(b, e, d));
    lemma_parse_bits(b, e, d);
}

/// The set with the given memberships.
pub open spec fn set_of_bits(b: bool, e: bool, d: bool) -> Set<OAuth2Scope> {
    Set::new(
        |s: OAuth2Scope|
            match s {
                OAuth2Scope::Basic => b,
                OAuth2Scope::Email => e,
                OAuth2Scope::Dev => d,
            },
    )
}

#[verifier::rlimit(60)]
proof fn lemma_parse_bits(b: bool, e: bool, d: bool)
    ensures
        parse_scopes(scopes_text_bits(b, e, d)) == Some(set_of_bits(b, e, d)),
{
    reveal_with_fuel(parse_scopes_rec, 20);
    let target = set_of_bits(b, e, d);
    if b {
        if e {
            if d {
                assert(parse_scopes(scopes_text_bits(b, e, d)) == Some(
                    Set::<OAuth2Scope>::empty().insert(OAuth2Scope::Basic).insert(
                        OAuth2Scope::Email,
                    ).insert(OAuth2Scope::Dev),
                ));
            } else {
                assert(parse_scopes(scopes_text_bits(b, e, d)) == Some(
                    Set::<OAuth2Scope>::empty().insert(OAuth2Scope::Basic).insert(
                        OAuth2Scope::Email,
                    ),
                ));
            }
        } else {
            if d {
                assert(parse_scopes(scopes_text_bits(b, e, d)) == Some(
                    Set::<OAuth2Scope>::empty().insert(OAuth2Scope::Basic).insert(
                        OAuth2Scope::Dev,
                    ),
                ));
            } else {
                assert(parse_scopes(scopes_text_bits(b, e, d)) == Some(
                    Set::<OAuth2Scope>::empty().insert(OAuth2Scope::Basic),
                ));
            }
        }
    } else {
        if e {
            if d {
                assert(parse_scopes(scopes_text_bits(b, e, d)) == Some(
                    Set::<OAuth2Scope>::empty().insert(OAuth2Scope::Email).insert(
                        OAuth2Scope::Dev,
                    ),
                ));
            } else {
                assert(parse_scopes(scopes_text_bits(b, e, d)) == Some(
                    Set::<OAuth2Scope>::empty().insert(OAuth2Scope::Email),
                ));
            }
        } else {
            if d {
                assert(parse_scopes(scopes_text_bits(b, e, d)) == Some(
                    Set::<OAuth2Scope>::empty().insert(OAuth2Scope::Dev),
                ));
            } else {
                assert(parse_scopes(scopes_text_bits(b, e, d)) == Some(
                    Set::<OAuth2Scope>::empty(),
                ));
            }
        }
    }
    assert(parse_scopes(scopes_text_bits(b, e, d)) matches Some(s) && s =~= target);
}

} // verus!
