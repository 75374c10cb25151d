//! The records that the client fetches and caches, and how each is shown.

use vstd::prelude::*;

use crate::text::{i64_to_decimal, is_digit, lemma_signed_decimal_reads_back, signed_decimal, signed_value};

verus! {

/// A currency that prices can be quoted in, as the API names it.
#[derive(Debug, Clone, PartialEq, Eq)]
pub struct RawVsCurrency {
    pub name: String,
}

/// A coin as the API lists it.
#[derive(Debug, Clone, PartialEq, Eq)]
pub struct RawCoin {
    pub id: String,
    pub symbol: String,
    pub name: String,
}

/// A quote currency as the cache stores it: its row id and favourite flag.
#[derive(Debug, Clone, PartialEq, Eq)]
pub struct VsCurrency {
    pub rowid: i64,
    pub raw: RawVsCurrency,
    pub favourite: bool,
}

/// A coin as the cache stores it: its row id and favourite flag.
#[derive(Debug, Clone, PartialEq, Eq)]
pub struct Coin {
    pub rowid: i64,
    pub raw: RawCoin,
    pub favourite: bool,
}

/// How a cached entry is listed: `[rowid] label`, or `[rowid!] label` for a
/// favourite.
pub open spec fn listing(rowid: i64, favourite: bool, label: Seq<char>) -> Seq<char> {
    seq!['['] + signed_decimal(rowid as int) + (if favourite { seq!['!'] } else { Seq::empty() })
        + seq![']', ' '] + label
}

/// A listing is the label whole at its end, after a head that depends on
/// the row id and the flag alone: `[`, the row id in decimal (reading back
/// as the row id), `!` exactly for a favourite, then `] `.
pub proof fn lemma_listing_shape(rowid: i64, favourite: bool, label: Seq<char>)
    ensures
        ({
            let text = listing(rowid, favourite, label);
            let head = text.len() - label.len();
            let id_end = head - 2 - (if favourite { 1int } else { 0int });
            &&& head >= 4
            &&& text.skip(head) == label
            &&& text[0] == '['
            &&& text[head - 2] == ']'
            &&& text[head - 1] == ' '
            &&& (text[head - 3] == '!') == favourite
            &&& signed_value(text.subrange(1, id_end)) == rowid
            &&& forall|i: int|
                1 <= i < id_end ==> is_digit(#[trigger] text[i]) || (i == 1 && text[i] == '-')
        }),
{
    let sd = signed_decimal(rowid as int);
    lemma_signed_decimal_reads_back(rowid as int);
    let mark: Seq<char> = if favourite { seq!['!'] } else { Seq::empty() };
    let text = listing(rowid, favourite, label);
    assert(text == seq!['['] + sd + mark + seq![']', ' '] + label);
    let head = text.len() - label.len();
    let id_end = head - 2 - (if favourite { 1int } else { 0int });
    assert(head == 1 + sd.len() + mark.len() + 2);
    assert(text.skip(head) =~= label);
    assert(text.subrange(1, id_end) =~= sd);
    assert forall|i: int| 1 <= i < id_end implies is_digit(#[trigger] text[i]) || (i == 1
        && text[i] == '-') by {
        assert(text[i] == sd[i - 1]);
        if rowid < 0 {
            if i > 1 {
                assert(is_digit(sd[i - 1]));
            }
        } else {
            assert(is_digit(sd[i - 1]));
        }
    }
    if !favourite {
        assert(text[head - 3] == sd.last());
    }
}

fn listing_text(rowid: i64, favourite: bool, label: &str) -> (s: String)
    ensures
        s@ == listing(rowid, favourite, label@),
{
    let mut s = String::new();
    s.append("[");
    let digits = i64_to_decimal(rowid);
    s.append(digits.as_str());
    if favourite {
        s.append("!] ");
    } else {
        s.append("] ");
    }
    s.append(label);
    proof {
        reveal_strlit("[");
        reveal_strlit("!] ");
        reveal_strlit("] ");
        assert(s@ =~= listing(rowid, favourite, label@));
    }
    s
}

impl RawVsCurrency {
    /// The text shown for a quote currency: its name.
    pub fn to_string(&self) -> (s: String)
        ensures
            s@ == self.name@,
    {
        self.name.clone()
    }
}

impl RawCoin {
    /// The text shown for a coin: its id.
    pub fn to_string(&self) -> (s: String)
        ensures
            s@ == self.id@,
    {
        self.id.clone()
    }
}

impl VsCurrency {
    /// The text shown for a cached quote currency, such as `[3!] usd`.
    pub fn to_string(&self) -> (s: String)
        ensures
            s@ == listing(self.rowid, self.favourite, self.raw.name@),
    {
        let label = self.raw.to_string();
        listing_text(self.rowid, self.favourite, label.as_str())
    }
}

impl Coin {
    /// The text shown for a cached coin, such as `[7] bitcoin`.
    pub fn to_string(&self) -> (s: String)
        ensures
            s@ == listing(self.rowid, self.favourite, self.raw.id@),
    {
        let label = self.raw.to_string();
        listing_text(self.rowid, self.favourite, label.as_str())
    }
}

} // verus!
