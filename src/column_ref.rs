//! Column references: a column's position, written as a spreadsheet-style
//! letter label, together with the header text expected at that position.
use crate::text::{push_char, trim, trimmed};
use vstd::prelude::*;
use vstd::string::{StrSliceExecFns, StringExecFns};

verus! {

/// A column of a source table: its zero-based position and its header.
pub struct ColumnRef {
    pub index: usize,
    pub header: String,
}

/// A text that is not of the form `<label>: <header>`.
#[derive(Debug, PartialEq, Eq)]
pub struct InvalidColumnRef;

pub open spec fn is_letter(c: char) -> bool {
    'A' <= c && c <= 'Z'
}

/// The letter that stands for digit `d` (`A` for 0, `Z` for 25).
pub open spec fn letter(d: int) -> char {
    (d + 65) as char
}

/// The digit that letter `c` stands for.
pub open spec fn digit(c: char) -> int {
    c as int - 65
}

/// The label of position `n`: A..Z, AA..ZZ, AAA.., in bijective base 26.
pub open spec fn label(n: nat) -> Seq<char>
    decreases n,
{
    if n < 26 {
        seq![letter(n as int)]
    } else {
        label((n / 26 - 1) as nat).push(letter((n % 26) as int))
    }
}

pub open spec fn is_label(s: Seq<char>) -> bool {
    s.len() > 0 && forall|i: int| 0 <= i < s.len() ==> is_letter(#[trigger] s[i])
}

/// The position that a label stands for.
pub open spec fn label_value(s: Seq<char>) -> int
    decreases s.len(),
{
    if s.len() <= 1 {
        if s.len() == 0 {
            0
        } else {
            digit(s[0])
        }
    } else {
        (label_value(s.drop_last()) + 1) * 26 + digit(s.last())
    }
}

/// `p` is the position of the first `:` in `s`.
pub open spec fn first_colon(s: Seq<char>, p: int) -> bool {
    0 <= p < s.len() && s[p] == ':' && forall|i: int| 0 <= i < p ==> s[i] != ':'
}

/// `c` is what the text `s` reads as: a label before its first `:` and the
/// trimmed rest as header.
pub open spec fn parses_to(s: Seq<char>, index: int, header: Seq<char>) -> bool {
    exists|p: int|
        #![trigger first_colon(s, p)]
        first_colon(s, p) && is_label(s.take(p)) && index == label_value(s.take(p))
            && header == trimmed(s.skip(p + 1))
}

/// `s` reads as a reference whose position fits in `usize`.
pub open spec fn is_reference_text(s: Seq<char>) -> bool {
    exists|p: int|
        #![trigger first_colon(s, p)]
        first_colon(s, p) && is_label(s.take(p)) && label_value(s.take(p)) <= usize::MAX
}

/// The text `<label>: <header>` of a reference.
pub open spec fn reference_text(index: nat, header: Seq<char>) -> Seq<char> {
    label(index) + seq![':', ' '] + header
}

pub proof fn lemma_label_is_label(n: nat)
    ensures
        is_label(label(n)),
    decreases n,
{
    if n >= 26 {
        lemma_label_is_label((n / 26 - 1) as nat);
    }
}

pub proof fn lemma_label_value_nonneg(s: Seq<char>)
    requires
        is_label(s),
    ensures
        label_value(s) >= 0,
    decreases s.len(),
{
    if s.len() > 1 {
        lemma_label_value_nonneg(s.drop_last());
    }
}

/// Decoding a label gives back the position that it was encoded from.
pub proof fn lemma_decode_encode(n: nat)
    ensures
        label_value(label(n)) == n,
    decreases n,
{
    if n >= 26 {
        let m = (n / 26 - 1) as nat;
        lemma_decode_encode(m);
        assert(label(n).drop_last() == label(m));
    }
}

/// Encoding the position that a label stands for gives back the label.
pub proof fn lemma_encode_decode(s: Seq<char>)
    requires
        is_label(s),
    ensures
        label_value(s) >= 0,
        label(label_value(s) as nat) == s,
    decreases s.len(),
{
    lemma_label_value_nonneg(s);
    if s.len() == 1 {
        assert(label(label_value(s) as nat) =~= s);
    } else {
        let t = s.drop_last();
        lemma_encode_decode(t);
        let v = label_value(s);
        let d = digit(s.last());
        assert(is_letter(s[s.len() - 1]));
        assert(v / 26 - 1 == label_value(t) && v % 26 == d) by (nonlinear_arith)
            requires v == (label_value(t) + 1) * 26 + d, 0 <= d < 26, label_value(t) >= 0;
        assert(label(v as nat) =~= s);
    }
}

/// Labels of one letter number 26, of two letters 26 * 26 more, of three
/// letters 26 * 26 * 26 more: a label grows only when the shorter ones are used up.
pub proof fn lemma_label_len(n: nat)
    ensures
        n < 26 ==> label(n).len() == 1,
        26 <= n < 702 ==> label(n).len() == 2,
        702 <= n < 18278 ==> label(n).len() == 3,
        18278 <= n ==> label(n).len() > 3,
    decreases n,
{
    if n >= 26 {
        lemma_label_len((n / 26 - 1) as nat);
    }
}

/// Whether `c` may stand in a label.
pub fn is_ref_byte(c: char) -> (r: bool)
    ensures
        r == is_letter(c),
{
    'A' <= c && c <= 'Z'
}

/// The label of position `index`.
pub fn index_to_ref(index: usize) -> (r: String)
    ensures
        r@ == label(index as nat),
{
    let mut acc = String::new();
    push_char(&mut acc, ((index % 26) as u8 + 65u8) as char);
    let mut rest: usize = index / 26;
    assert(acc@ =~= seq![letter((index % 26) as int)]);
    while rest > 0
        invariant
            label(index as nat) == (if rest == 0 {
                seq![]
            } else {
                label((rest - 1) as nat)
            }) + acc@,
        decreases rest,
    {
        let m = rest - 1;
        let mut next = String::new();
        push_char(&mut next, ((m % 26) as u8 + 65u8) as char);
        assert(next@ =~= seq![letter((m % 26) as int)]);
        acc = next.concat(acc.as_str());
        rest = m / 26;
        assert(label(m as nat) =~= (if rest == 0 {
            seq![]
        } else {
            label((rest - 1) as nat)
        }) + seq![letter((m % 26) as int)]);
        assert(label(index as nat) =~= (if rest == 0 {
            seq![]
        } else {
            label((rest - 1) as nat)
        }) + acc@);
    }
    assert(label(index as nat) =~= acc@);
    acc
}

/// The position that the label `s` stands for: `None` where `s` is not a
/// label, or where the position does not fit in `usize`.
pub fn ref_to_index(s: &str) -> (r: Option<usize>)
    ensures
        r == (if is_label(s@) && label_value(s@) <= usize::MAX {
            Some(label_value(s@) as usize)
        } else {
            None
        }),
{
    let n = s.unicode_len();
    if n == 0 {
        return None;
    }
    let c0 = s.get_char(0);
    if !is_ref_byte(c0) {
        return None;
    }
    let mut index: usize = (c0 as u32 - 65) as usize;
    let mut overflow = false;
    let mut i: usize = 1;
    assert(s@.take(1) =~= seq![c0]);
    while i < n
        invariant
            n == s@.len(),
            1 <= i <= n,
            is_label(s@.take(i as int)),
            label_value(s@.take(i as int)) >= 0,
            !overflow ==> index == label_value(s@.take(i as int)),
            overflow ==> label_value(s@.take(i as int)) > usize::MAX,
        decreases n - i,
    {
        let c = s.get_char(i);
        if !is_ref_byte(c) {
            assert(!is_letter(s@[i as int]));
            return None;
        }
        let ghost prev = label_value(s@.take(i as int));
        assert(s@.take(i + 1).drop_last() =~= s@.take(i as int));
        let d = (c as u32 - 65) as usize;
        if !overflow {
            match index.checked_add(1) {
                Some(a) => match a.checked_mul(26) {
                    Some(b) => match b.checked_add(d) {
                        Some(v) => {
                            index = v;
                        },
                        None => {
                            overflow = true;
                        },
                    },
                    None => {
                        overflow = true;
                    },
                },
                None => {
                    overflow = true;
                },
            }
        }
        i = i + 1;
        assert(label_value(s@.take(i as int)) == (prev + 1) * 26 + d);
        assert(is_label(s@.take(i as int)));
    }
    assert(s@.take(n as int) =~= s@);
    if overflow {
        None
    } else {
        Some(index)
    }
}

impl ColumnRef {
    /// Reads `<label>: <header>`: the label before the first `:`, the rest
    /// trimmed of surrounding white space as header.
    pub fn parse(s: &str) -> (r: Result<ColumnRef, InvalidColumnRef>)
        ensures
            r is Ok <==> is_reference_text(s@),
            r matches Ok(c) ==> parses_to(s@, c.index as int, c.header@),
    {
        let n = s.unicode_len();
        let mut p: usize = 0;
        while p < n && s.get_char(p) != ':'
            invariant
                n == s@.len(),
                p <= n,
                forall|i: int| 0 <= i < p ==> s@[i] != ':',
            decreases n - p,
        {
            p = p + 1;
        }
        if p == n {
            assert forall|q: int| !first_colon(s@, q) by {
                if first_colon(s@, q) {
                    assert(s@[q] != ':');
                }
            }
            return Err(InvalidColumnRef);
        }
        assert(first_colon(s@, p as int));
        assert forall|q: int| #[trigger] first_colon(s@, q) implies q == p by {
            if q < p {
                assert(s@[q] != ':');
            } else if q > p {
                assert(s@[p as int] != ':');
            }
        }
        let label_text = s.substring_char(0, p);
        assert(label_text@ =~= s@.take(p as int));
        let index = match ref_to_index(label_text) {
            Some(i) => i,
            None => {
                return Err(InvalidColumnRef);
            },
        };
        let rest = s.substring_char(p + 1, n);
        assert(rest@ =~= s@.skip(p + 1));
        let bare = trim(rest);
        let header = String::from_str(bare);
        assert(s@.subrange(0, p as int) =~= s@.take(p as int));
        assert(header@ == trimmed(s@.skip(p + 1)));
        assert(is_label(s@.take(p as int)));
        proof {
            lemma_label_value_nonneg(s@.take(p as int));
        }
        assert(index == label_value(s@.take(p as int)));
        Ok(ColumnRef { index, header })
    }

    /// The text `<label>: <header>` of this reference.
    pub fn to_string(&self) -> (r: String)
        ensures
            r@ == reference_text(self.index as nat, self.header@),
    {
        let mut r = index_to_ref(self.index);
        push_char(&mut r, ':');
        push_char(&mut r, ' ');
        let r = r.concat(self.header.as_str());
        assert(r@ =~= reference_text(self.index as nat, self.header@));
        r
    }
}

impl std::str::FromStr for ColumnRef {
    type Err = InvalidColumnRef;

    fn from_str(s: &str) -> Result<ColumnRef, InvalidColumnRef> {
        ColumnRef::parse(s)
    }
}

impl Clone for ColumnRef {
    fn clone(&self) -> (r: Self)
        ensures
            r.index == self.index,
            r.header@ == self.header@,
    {
        ColumnRef { index: self.index, header: self.header.clone() }
    }
}

} // verus!
