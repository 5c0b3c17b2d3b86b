use vstd::prelude::*;
use vstd::utf8::encode_utf8;
use vstd::string::StringSliceAdditionalSpecFns;
use core::ops::Deref;
use crate::cli::ItemType;

verus! {

/// One captured item: a completed line with the moment and the
/// classification under which it was persisted.
pub struct CaptureItem {
    pub timestamp: u64,
    pub item_type: ItemType,
    pub text: String,
}

/// The mathematical value of a capture item.
pub struct ItemModel {
    pub timestamp: u64,
    pub item_type: ItemType,
    pub text: Seq<char>,
}

impl View for CaptureItem {
    type V = ItemModel;

    open spec fn view(&self) -> ItemModel {
        (ItemModel { timestamp: self.timestamp, item_type: self.item_type, text: self.text@ })
    }
}

/// The values of a sequence of items.
pub open spec fn models(s: Seq<CaptureItem>) -> Seq<ItemModel> {
    s.map_values(|it: CaptureItem| it@)
}

/// The timestamp of the newest stored item, zero when the store is empty.
pub open spec fn last_ts(s: Seq<ItemModel>) -> u64 {
    if s.len() == 0 {
        0u64
    } else {
        s.last().timestamp
    }
}

/// The timestamp under which the store files the next item handed to it
/// at `ts`: never before the newest item already stored, so the order of
/// the store stays the order of line completion.
pub open spec fn effective_ts(s: Seq<ItemModel>, ts: u64) -> u64 {
    if ts >= last_ts(s) {
        ts
    } else {
        last_ts(s)
    }
}

/// The append-only capture store, viewed as the sequence of item values
/// in the order they were persisted.
pub struct CaptureStore {
    items: Vec<CaptureItem>,
}

impl View for CaptureStore {
    type V = Seq<ItemModel>;

    closed spec fn view(&self) -> Seq<ItemModel> {
        models(self.items@)
    }
}

impl CaptureStore {
    /// Ordering invariant: timestamps never decrease along the store, so
    /// persisted items appear in line-completion order.
    pub open spec fn ordered(&self) -> bool {
        forall|i: int, j: int|
            0 <= i <= j < self@.len() ==> self@[i].timestamp <= self@[j].timestamp
    }

    /// An empty store.
    pub fn new() -> (r: Self)
        ensures
            r@ == Seq::<ItemModel>::empty(),
            r.ordered(),
    {
        CaptureStore { items: Vec::new() }
    }

    /// The number of stored items.
    pub fn len(&self) -> (r: usize)
        ensures
            r == self@.len(),
    {
        self.items.len()
    }

    /// The `i`-th stored item, oldest first.
    pub fn get(&self, i: usize) -> (r: &CaptureItem)
        requires
            i < self@.len(),
        ensures
            r@ == self@[i as int],
    {
        &self.items[i]
    }

    /// Append one item. The item is filed under `timestamp`, pushed up to
    /// the newest stored timestamp if the clock handed in an earlier one:
    /// the store's order never goes back.
    pub fn persist(&mut self, timestamp: u64, item_type: ItemType, text: String)
        requires
            old(self).ordered(),
        ensures
            final(self).ordered(),
            final(self)@ == old(self)@.push(
                (ItemModel {
                    timestamp: effective_ts(old(self)@, timestamp),
                    item_type: item_type,
                    text: text@,
                }),
            ),
    {
        let n = self.items.len();
        let last: u64 = if n == 0 {
            0
        } else {
            self.items[n - 1].timestamp
        };
        let eff: u64 = if timestamp >= last {
            timestamp
        } else {
            last
        };
        proof {
            assert(models(self.items@).len() == self.items@.len());
            if n > 0 {
                assert(models(self.items@)[n - 1] == self.items@[n - 1]@);
            }
        }
        self.items.push(CaptureItem { timestamp: eff, item_type, text });
        proof {
            assert(models(self.items@) =~= models(old(self).items@).push(
                self.items@[self.items@.len() - 1]@,
            ));
        }
    }

    /// Append every line of a completed batch, in order, all filed at
    /// `timestamp` (or at the newest stored timestamp if that is later),
    /// all classified as output.
    pub fn persist_lines(&mut self, timestamp: u64, lines: &Vec<String>)
        requires
            old(self).ordered(),
        ensures
            final(self).ordered(),
            final(self)@.len() == old(self)@.len() + lines@.len(),
            forall|i: int| 0 <= i < old(self)@.len() ==> final(self)@[i] == old(self)@[i],
            forall|j: int|
                0 <= j < lines@.len() ==> final(self)@[old(self)@.len() + j] == (ItemModel {
                    timestamp: effective_ts(old(self)@, timestamp),
                    item_type: ItemType::Output,
                    text: lines@[j]@,
                }),
    {
        let ghost base = self@;
        let ghost eff = effective_ts(base, timestamp);
        let mut j: usize = 0;
        while j < lines.len()
            invariant
                j <= lines@.len(),
                eff == effective_ts(base, timestamp),
                self.ordered(),
                self@.len() == base.len() + j,
                forall|i: int| 0 <= i < base.len() ==> self@[i] == base[i],
                forall|k: int|
                    0 <= k < j ==> self@[base.len() + k] == (ItemModel {
                        timestamp: eff,
                        item_type: ItemType::Output,
                        text: lines@[k]@,
                    }),
                j > 0 ==> last_ts(self@) == eff,
                j == 0 ==> self@ == base,
            decreases lines@.len() - j,
        {
            let ghost prev = self@;
            let text = lines[j].clone();
            proof {
                assert(effective_ts(prev, timestamp) == eff) by {
                    if j > 0 {
                        assert(last_ts(prev) == eff);
                        assert(eff >= timestamp);
                    }
                }
            }
            self.persist(timestamp, ItemType::Output, text);
            proof {
                assert(self@ == prev.push(
                    (ItemModel {
                        timestamp: eff,
                        item_type: ItemType::Output,
                        text: lines@[j as int]@,
                    }),
                ));
                assert(self@.last() == self@[prev.len() as int]);
            }
            j = j + 1;
        }
    }

    /// Query the store: newest first, keeping the items the filter
    /// accepts. Fails exactly when the filter carries a regex pattern
    /// that is not valid syntax.
    pub fn query(&self, filter: &Filter) -> (r: Result<Vec<CaptureItem>, QueryError>)
        ensures
            r is Err <==> (filter@.pattern matches Some(p) && !re_valid(p)),
            r matches Ok(v) ==> models(v@) == self@.reverse().filter(accepted_by(filter@)),
    {
        match &filter.pattern {
            Some(p) => {
                if regex_match(p.deref(), "").is_none() {
                    return Err(QueryError::InvalidPattern);
                }
            },
            None => {},
        }
        let ghost m = self@;
        let mut out: Vec<CaptureItem> = Vec::new();
        let mut i: usize = self.items.len();
        proof {
            assert(m.skip(i as int) =~= Seq::<ItemModel>::empty());
            assert(m.skip(i as int).reverse().filter(accepted_by(filter@))
                =~= Seq::<ItemModel>::empty()) by {
                reveal(Seq::filter);
                assert(m.skip(i as int).reverse() =~= Seq::<ItemModel>::empty());
            }
        }
        while i > 0
            invariant
                i <= self.items@.len(),
                m == self@,
                filter@.pattern matches Some(p) ==> re_valid(p),
                models(out@) == m.skip(i as int).reverse().filter(accepted_by(filter@)),
            decreases i,
        {
            i = i - 1;
            proof {
                assert(m[i as int] == self.items@[i as int]@);
                assert(m.skip(i as int) =~= seq![m[i as int]] + m.skip(i as int + 1));
                assert(m.skip(i as int).reverse() =~= m.skip(i as int + 1).reverse().push(
                    m[i as int],
                ));
                lemma_filter_push(
                    m.skip(i as int + 1).reverse(),
                    accepted_by(filter@),
                    m[i as int],
                );
            }
            let it = &self.items[i];
            if accept_item(it, filter) {
                let ghost before = out@;
                out.push(
                    CaptureItem {
                        timestamp: it.timestamp,
                        item_type: it.item_type,
                        text: it.text.clone(),
                    },
                );
                proof {
                    assert(models(out@) =~= models(before).push(m[i as int]));
                }
            }
        }
        proof {
            assert(m.skip(0) =~= m);
        }
        Ok(out)
    }
}

/// Filtering on a pushed element, written out.
proof fn lemma_filter_push(s: Seq<ItemModel>, pred: spec_fn(ItemModel) -> bool, x: ItemModel)
    ensures
        pred(x) ==> s.push(x).filter(pred) == s.filter(pred).push(x),
        !pred(x) ==> s.push(x).filter(pred) == s.filter(pred),
{
    reveal(Seq::filter);
    assert(s.push(x).drop_last() =~= s);
    assert(s.push(x).last() == x);
}

/// The acceptance predicate of a filter, over item values: the type is
/// one of the requested types (an empty request means every type), the
/// timestamp is not before the cutoff, and the text matches the pattern.
pub open spec fn accepted(m: ItemModel, f: FilterModel) -> bool {
    &&& (f.types.len() == 0 || f.types.contains(m.item_type))
    &&& (match f.cutoff {
        Some(c) => m.timestamp >= c,
        None => true,
    })
    &&& (match f.pattern {
        Some(p) => re_match(p, m.text),
        None => true,
    })
}

/// `accepted` as a predicate value, fixed to one filter.
pub open spec fn accepted_by(f: FilterModel) -> spec_fn(ItemModel) -> bool {
    |m: ItemModel| accepted(m, f)
}

/// A query filter: requested types (empty means all), an optional regex
/// pattern over the text, and an optional oldest admissible timestamp.
pub struct Filter {
    pub types: Vec<ItemType>,
    pub pattern: Option<String>,
    pub cutoff: Option<u64>,
}

/// The mathematical value of a filter.
pub struct FilterModel {
    pub types: Seq<ItemType>,
    pub pattern: Option<Seq<char>>,
    pub cutoff: Option<u64>,
}

impl View for Filter {
    type V = FilterModel;

    open spec fn view(&self) -> FilterModel {
        (FilterModel {
            types: self.types@,
            pattern: match self.pattern {
                Some(p) => Some(p@),
                None => None,
            },
            cutoff: self.cutoff,
        })
    }
}

/// A query could not be run.
#[derive(Clone, Copy, Debug, PartialEq, Eq, Structural)]
pub enum QueryError {
    /// The filter's regex pattern is not valid syntax.
    InvalidPattern,
}

/// A filter could not be built from the command line's words.
#[derive(Clone, Copy, Debug, PartialEq, Eq, Structural)]
pub enum FilterError {
    /// The `since` word is not digits followed by `s`, `m` or `h`, or
    /// names a duration too large to represent.
    InvalidSince,
}

/// A name for whether `pattern` is valid regex syntax: what
/// `regex::Regex::new` decides, a property of the pattern alone.
pub uninterp spec fn re_valid(pattern: Seq<char>) -> bool;

/// A name for whether a valid `pattern` matches `text`: what
/// `regex::Regex::is_match` returns, a function of pattern and text
/// alone.
pub uninterp spec fn re_match(pattern: Seq<char>, text: Seq<char>) -> bool;

/// Relies on `regex::Regex::new` (compilation succeeds iff the pattern is
/// valid regex syntax, decided by the pattern alone) and
/// `regex::Regex::is_match` (whether a compiled pattern matches is a
/// function of the pattern and the text alone).
#[verifier::external_body]
fn regex_match(pattern: &str, text: &str) -> (r: Option<bool>)
    ensures
        r is Some <==> re_valid(pattern@),
        r matches Some(b) ==> b == re_match(pattern@, text@),
{
    match regex::Regex::new(pattern) {
        Ok(re) => Some(re.is_match(text)),
        Err(_) => None,
    }
}

fn accept_item(it: &CaptureItem, filter: &Filter) -> (r: bool)
    requires
        filter@.pattern matches Some(p) ==> re_valid(p),
    ensures
        r == accepted(it@, filter@),
{
    let type_ok: bool = if filter.types.len() == 0 {
        true
    } else {
        contains_type(&filter.types, it.item_type)
    };
    let time_ok: bool = match filter.cutoff {
        Some(c) => it.timestamp >= c,
        None => true,
    };
    let text_ok: bool = match &filter.pattern {
        Some(p) => regex_match(p.deref(), it.text.deref()).unwrap(),
        None => true,
    };
    type_ok && time_ok && text_ok
}

fn contains_type(types: &Vec<ItemType>, t: ItemType) -> (r: bool)
    ensures
        r == types@.contains(t),
{
    let mut i: usize = 0;
    while i < types.len()
        invariant
            i <= types@.len(),
            forall|j: int| 0 <= j < i ==> types@[j] != t,
        decreases types@.len() - i,
    {
        if types[i] == t {
            proof {
                assert(types@[i as int] == t);
            }
            return true;
        }
        i = i + 1;
    }
    false
}

/// A digit byte.
pub open spec fn is_digit(b: u8) -> bool {
    48 <= b && b <= 57
}

/// Every byte of `s` is a digit.
pub open spec fn all_digits(s: Seq<u8>) -> bool {
    forall|i: int| 0 <= i < s.len() ==> is_digit(s[i])
}

/// The number written by a sequence of digit bytes, most significant
/// first.
pub open spec fn digits_value(s: Seq<u8>) -> nat
    decreases s.len(),
{
    if s.len() == 0 {
        0
    } else {
        digits_value(s.drop_last()) * 10 + (s.last() - 48) as nat
    }
}

/// Seconds per duration unit suffix: `s`, `m` or `h`; zero for any other
/// byte.
pub open spec fn unit_factor(b: u8) -> nat {
    if b == 115 {
        1
    } else if b == 109 {
        60
    } else if b == 104 {
        3600
    } else {
        0
    }
}

/// What a `since` word denotes: one or more digits followed by a unit
/// suffix name a duration in seconds, if it fits; anything else is
/// rejected.
pub open spec fn since_spec(s: Seq<u8>) -> Option<u64> {
    if s.len() < 2 {
        None
    } else {
        let digits = s.take(s.len() - 1);
        let unit = unit_factor(s.last());
        if all_digits(digits) && unit > 0 && digits_value(digits) * unit <= u64::MAX {
            Some((digits_value(digits) * unit) as u64)
        } else {
            None
        }
    }
}

/// A digit sequence's value only grows as more digits follow.
proof fn lemma_digits_prefix(s: Seq<u8>, k: int)
    requires
        0 <= k <= s.len(),
        all_digits(s),
    ensures
        digits_value(s.take(k)) <= digits_value(s),
    decreases s.len(),
{
    if k == s.len() {
        assert(s.take(k) =~= s);
    } else {
        assert(s.drop_last().take(k) =~= s.take(k));
        lemma_digits_prefix(s.drop_last(), k);
    }
}

/// Parse a `since` word such as `10m`: digits and a unit suffix
/// (`s` seconds, `m` minutes, `h` hours), yielding seconds.
pub fn parse_since(s: &str) -> (r: Option<u64>)
    ensures
        r == since_spec(s.spec_bytes()),
{
    let bytes = s.as_bytes();
    let n = bytes.len();
    if n < 2 {
        return None;
    }
    let ghost digits = s.spec_bytes().take(n - 1);
    let unit_b = bytes[n - 1];
    let unit: u64 = if unit_b == 115 {
        1
    } else if unit_b == 109 {
        60
    } else if unit_b == 104 {
        3600
    } else {
        return None;
    };
    let mut value: u64 = 0;
    let mut i: usize = 0;
    while i < n - 1
        invariant
            n == s.spec_bytes().len(),
            bytes@ == s.spec_bytes(),
            2 <= n,
            i <= n - 1,
            digits == s.spec_bytes().take(n - 1),
            unit == unit_factor(s.spec_bytes()[n - 1]) && unit > 0,
            all_digits(bytes@.take(i as int)),
            value == digits_value(bytes@.take(i as int)),
        decreases n - i,
    {
        let b = bytes[i];
        proof {
            assert(bytes@.take(i + 1).drop_last() =~= bytes@.take(i as int));
            assert(digits.take(i as int) =~= bytes@.take(i as int));
        }
        if !(48 <= b && b <= 57) {
            proof {
                assert(digits[i as int] == bytes@[i as int]);
                assert(!all_digits(digits));
            }
            return None;
        }
        let d: u64 = (b - 48) as u64;
        let wide: u128 = (value as u128) * 10 + (d as u128);
        if wide > u64::MAX as u128 {
            proof {
                assert(digits_value(bytes@.take(i + 1)) > u64::MAX);
                if all_digits(digits) {
                    assert(digits.take(i + 1) =~= bytes@.take(i + 1));
                    lemma_digits_prefix(digits, i + 1);
                    assert(digits_value(digits) * unit_factor(s.spec_bytes()[n - 1])
                        > u64::MAX) by {
                        assert(digits_value(digits) >= digits_value(digits.take(i + 1)));
                        assert(unit_factor(s.spec_bytes()[n - 1]) >= 1);
                    }
                }
            }
            return None;
        }
        value = value * 10 + d;
        i = i + 1;
        proof {
            assert(bytes@.take(i as int).drop_last() =~= bytes@.take(i - 1));
        }
    }
    proof {
        assert(bytes@.take(n - 1) =~= digits);
        assert(s.spec_bytes()[n - 1] == s.spec_bytes().last());
    }
    let wide: u128 = (value as u128) * (unit as u128);
    if wide > u64::MAX as u128 {
        return None;
    }
    Some(value * unit)
}

/// The oldest admissible timestamp for a query made at `now` over the
/// last `dur` seconds: the subtraction floors at zero.
pub open spec fn cutoff_spec(now: u64, dur: u64) -> u64 {
    if dur <= now {
        (now - dur) as u64
    } else {
        0u64
    }
}

/// The pattern view of an optional pattern string.
pub open spec fn pattern_view(pattern: Option<String>) -> Option<Seq<char>> {
    match pattern {
        Some(p) => Some(p@),
        None => None,
    }
}

/// Build the query filter from the command line's words at time `now`:
/// the requested types pass through, the regex pattern passes through
/// (validity is the query's concern), and the `since` word is parsed
/// into a cutoff timestamp. Fails exactly when `since` is present and
/// malformed.
pub fn build_filter(
    types: Vec<ItemType>,
    pattern: Option<String>,
    since: Option<String>,
    now: u64,
) -> (r: Result<Filter, FilterError>)
    ensures
        since is None ==> (r matches Ok(f) && f@ == (FilterModel {
            types: types@,
            pattern: pattern_view(pattern),
            cutoff: None,
        })),
        since matches Some(s) ==> (match since_spec(encode_utf8(s@)) {
            Option::None => r == Err::<Filter, FilterError>(FilterError::InvalidSince),
            Option::Some(d) => (r matches Ok(f) && f@ == (FilterModel {
                types: types@,
                pattern: pattern_view(pattern),
                cutoff: Some(cutoff_spec(now, d)),
            })),
        }),
{
    let cutoff: Option<u64> = match &since {
        None => None,
        Some(s) => match parse_since(s.deref()) {
            None => {
                return Err(FilterError::InvalidSince);
            },
            Some(d) => Some(
                if d <= now {
                    now - d
                } else {
                    0
                },
            ),
        },
    };
    Ok(Filter { types, pattern, cutoff })
}

} // verus!
