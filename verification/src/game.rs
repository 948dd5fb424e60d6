//! The `Game` value and the composite identifier that names it across calls.
//!
//! A remote caller holds only the string `"{src}_{id}"` between calls, so the
//! composite identifier must be injective on the `(src, id)` pair: the proofs
//! here show that the decimal digit part contains no underscore, which makes
//! the split at the last underscore unambiguous.

use vstd::prelude::*;
use vstd::string::*;

verus! {

/// One launchable title found by a game-source backend.
#[derive(Debug)]
pub struct Game {
    /// Display title.
    pub name: String,
    /// Icon identifier.
    pub icon: String,
    /// Display grouping label.
    pub category: String,
    /// Install directory, when the backend knows one; its presence decides
    /// whether an "open directory" action is offered.
    pub directory: Option<String>,
    /// Backend-local numeric identifier, unique only within its source.
    pub id: u32,
    /// Tag of the source that produced this game.
    pub src: String,
}

impl Clone for Game {
    fn clone(&self) -> (r: Self)
        ensures
            r == *self,
    {
        Game {
            name: self.name.clone(),
            icon: self.icon.clone(),
            category: self.category.clone(),
            directory: match &self.directory {
                Some(d) => Some(d.clone()),
                None => None,
            },
            id: self.id,
            src: self.src.clone(),
        }
    }
}

/// The canonical decimal digit character for a value below ten.
pub open spec fn dec_digit(d: nat) -> char {
    if d == 0 {
        '0'
    } else if d == 1 {
        '1'
    } else if d == 2 {
        '2'
    } else if d == 3 {
        '3'
    } else if d == 4 {
        '4'
    } else if d == 5 {
        '5'
    } else if d == 6 {
        '6'
    } else if d == 7 {
        '7'
    } else if d == 8 {
        '8'
    } else {
        '9'
    }
}

/// The canonical decimal representation of a number, without leading zeros.
pub open spec fn dec_str(n: nat) -> Seq<char>
    decreases n,
{
    if n < 10 {
        seq![dec_digit(n)]
    } else {
        dec_str(n / 10).push(dec_digit(n % 10))
    }
}

/// Whether a character is a decimal digit character.
pub open spec fn is_dec_digit(c: char) -> bool {
    c == '0' || c == '1' || c == '2' || c == '3' || c == '4' || c == '5' || c == '6' || c == '7'
        || c == '8' || c == '9'
}

/// The composite identifier `"{src}_{id}"` that the remote caller holds.
pub open spec fn composite_id_spec(src: Seq<char>, id: u32) -> Seq<char> {
    src + seq!['_'] + dec_str(id as nat)
}

/// The composite identifier of one game.
pub open spec fn cid(g: Game) -> Seq<char> {
    composite_id_spec(g.src@, g.id)
}

/// Every character of a decimal representation is a digit, so none is an
/// underscore.
pub proof fn lemma_dec_str_digits(n: nat)
    ensures
        dec_str(n).len() >= 1,
        forall|i: int| 0 <= i < dec_str(n).len() ==> is_dec_digit(#[trigger] dec_str(n)[i]),
    decreases n,
{
    if n < 10 {
    } else {
        lemma_dec_str_digits(n / 10);
    }
}

/// The canonical decimal representation is injective.
pub proof fn lemma_dec_str_injective(a: nat, b: nat)
    requires
        dec_str(a) == dec_str(b),
    ensures
        a == b,
    decreases a,
{
    lemma_dec_str_digits(a / 10);
    lemma_dec_str_digits(b / 10);
    if a < 10 && b < 10 {
        assert(dec_str(a)[0] == dec_digit(a));
        assert(dec_str(b)[0] == dec_digit(b));
    } else if a < 10 && b >= 10 {
        assert(dec_str(a).len() == 1);
        assert(dec_str(b).len() == dec_str(b / 10).len() + 1);
    } else if a >= 10 && b < 10 {
        assert(dec_str(b).len() == 1);
        assert(dec_str(a).len() == dec_str(a / 10).len() + 1);
    } else {
        let la = dec_str(a / 10).len() as int;
        let lb = dec_str(b / 10).len() as int;
        assert(dec_str(a).len() == la + 1);
        assert(dec_str(a).last() == dec_digit(a % 10));
        assert(dec_str(b).last() == dec_digit(b % 10));
        assert(a % 10 == b % 10);
        assert(dec_str(a).drop_last() =~= dec_str(a / 10));
        assert(dec_str(b).drop_last() =~= dec_str(b / 10));
        lemma_dec_str_injective(a / 10, b / 10);
        assert(a == 10 * (a / 10) + a % 10);
        assert(b == 10 * (b / 10) + b % 10);
    }
}

/// The composite identifier is injective on the `(src, id)` pair: since the
/// digit part holds no underscore, the last underscore of the string is the
/// separator, whatever characters the source tag contains.
pub proof fn lemma_composite_id_injective(s1: Seq<char>, i1: u32, s2: Seq<char>, i2: u32)
    requires
        composite_id_spec(s1, i1) == composite_id_spec(s2, i2),
    ensures
        s1 == s2,
        i1 == i2,
{
    let c1 = composite_id_spec(s1, i1);
    let c2 = composite_id_spec(s2, i2);
    let d1 = dec_str(i1 as nat);
    let d2 = dec_str(i2 as nat);
    lemma_dec_str_digits(i1 as nat);
    lemma_dec_str_digits(i2 as nat);
    assert(c1.len() == s1.len() + 1 + d1.len());
    if s1.len() < s2.len() {
        // The separator of the second string falls inside the digit part of
        // the first, but digits are never underscores.
        let p = s2.len() as int;
        assert(c2[p] == '_');
        assert(c1[p] == d1[p - s1.len() - 1]);
        assert(is_dec_digit(d1[p - s1.len() - 1]));
        assert(false);
    } else if s2.len() < s1.len() {
        let p = s1.len() as int;
        assert(c1[p] == '_');
        assert(c2[p] == d2[p - s2.len() - 1]);
        assert(is_dec_digit(d2[p - s2.len() - 1]));
        assert(false);
    } else {
        assert(s1 =~= s2) by {
            assert(forall|i: int| 0 <= i < s1.len() ==> c1[i] == s1[i] && c2[i] == s2[i]);
        }
        assert(d1 =~= d2) by {
            assert(forall|i: int|
                0 <= i < d1.len() ==> c1[s1.len() + 1 + i] == d1[i] && c2[s2.len() + 1 + i]
                    == d2[i]);
        }
        lemma_dec_str_injective(i1 as nat, i2 as nat);
    }
}

/// The digit character for one value below ten.
fn digit_str(d: u32) -> (r: &'static str)
    requires
        d < 10,
    ensures
        r@ =~= seq![dec_digit(d as nat)],
{
    proof {
        reveal_strlit("0");
        reveal_strlit("1");
        reveal_strlit("2");
        reveal_strlit("3");
        reveal_strlit("4");
        reveal_strlit("5");
        reveal_strlit("6");
        reveal_strlit("7");
        reveal_strlit("8");
        reveal_strlit("9");
    }
    match d {
        0 => "0",
        1 => "1",
        2 => "2",
        3 => "3",
        4 => "4",
        5 => "5",
        6 => "6",
        7 => "7",
        8 => "8",
        _ => "9",
    }
}

/// The decimal representation of a number, as a string.
pub fn u32_to_dec(n: u32) -> (s: String)
    ensures
        s@ == dec_str(n as nat),
    decreases n,
{
    if n < 10 {
        String::from_str(digit_str(n))
    } else {
        let mut s = u32_to_dec(n / 10);
        s.append(digit_str(n % 10));
        proof {
            assert(s@ =~= dec_str((n / 10) as nat).push(dec_digit((n % 10) as nat)));
        }
        s
    }
}

/// A copy of a list of games.
pub fn clone_games(v: &Vec<Game>) -> (r: Vec<Game>)
    ensures
        r@ == v@,
{
    let mut r: Vec<Game> = Vec::new();
    let mut i: usize = 0;
    while i < v.len()
        invariant
            i <= v@.len(),
            r@ =~= v@.subrange(0, i as int),
        decreases v@.len() - i,
    {
        r.push(v[i].clone());
        i += 1;
    }
    proof {
        assert(r@ =~= v@);
    }
    r
}

/// The composite identifier `"{src}_{id}"`, built as a string.
pub fn composite_id(src: &str, id: u32) -> (r: String)
    ensures
        r@ == composite_id_spec(src@, id),
{
    proof {
        reveal_strlit("_");
    }
    let mut r = String::from_str(src);
    r.append("_");
    let digits = u32_to_dec(id);
    r.append(digits.as_str());
    proof {
        assert(r@ =~= composite_id_spec(src@, id));
    }
    r
}

} // verus!
