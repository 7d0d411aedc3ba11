//! The self-describing value carried across the host/module boundary.
use vstd::prelude::*;
use crate::abi::{
    SystemError, FILAMENT_MAX_RECURSION_DEPTH, FILAMENT_VAL_BLOB, FILAMENT_VAL_BOOL,
    FILAMENT_VAL_BYTES, FILAMENT_VAL_F64, FILAMENT_VAL_I64, FILAMENT_VAL_LIST, FILAMENT_VAL_MAP,
    FILAMENT_VAL_STR, FILAMENT_VAL_U64, FILAMENT_VAL_UNIT,
};

verus! {

/// A reference to a shared blob as a value carries it.
#[derive(Clone, Copy, Debug, PartialEq, Eq, Structural)]
pub struct BlobRef {
    pub handle: u64,
    pub address: u64,
    pub size: u64,
}

/// A tagged union with one constructor per tag. A double travels as its
/// IEEE-754 bit pattern.
pub enum FilamentValue {
    Unit,
    Bool(bool),
    I64(i64),
    U64(u64),
    F64(u64),
    Str(String),
    Blob(BlobRef),
    Dict(Vec<(String, FilamentValue)>),
    List(Vec<FilamentValue>),
    Bytes(Vec<u8>),
}

/// How deeply maps and lists nest in a value: a scalar is 0, a container one
/// more than its deepest member.
pub open spec fn depth(v: FilamentValue) -> nat
    decreases v,
{
    match v {
        FilamentValue::Dict(m) => 1 + entries_depth(m@),
        FilamentValue::List(l) => 1 + items_depth(l@),
        _ => 0,
    }
}

/// The deepest of a sequence of values, 0 when there is none.
pub open spec fn items_depth(s: Seq<FilamentValue>) -> nat
    decreases s,
{
    if s.len() == 0 {
        0
    } else {
        let rest = items_depth(s.drop_last());
        let last = depth(s.last());
        if last > rest {
            last
        } else {
            rest
        }
    }
}

/// The deepest of the values of a sequence of map entries.
pub open spec fn entries_depth(s: Seq<(String, FilamentValue)>) -> nat
    decreases s,
{
    if s.len() == 0 {
        0
    } else {
        let rest = entries_depth(s.drop_last());
        let last = depth(s.last().1);
        if last > rest {
            last
        } else {
            rest
        }
    }
}

/// The wire tag of each constructor.
pub open spec fn tag_of(v: FilamentValue) -> u32 {
    match v {
        FilamentValue::Unit => FILAMENT_VAL_UNIT,
        FilamentValue::Bool(_) => FILAMENT_VAL_BOOL,
        FilamentValue::I64(_) => FILAMENT_VAL_I64,
        FilamentValue::U64(_) => FILAMENT_VAL_U64,
        FilamentValue::F64(_) => FILAMENT_VAL_F64,
        FilamentValue::Str(_) => FILAMENT_VAL_STR,
        FilamentValue::Blob(_) => FILAMENT_VAL_BLOB,
        FilamentValue::Dict(_) => FILAMENT_VAL_MAP,
        FilamentValue::List(_) => FILAMENT_VAL_LIST,
        FilamentValue::Bytes(_) => FILAMENT_VAL_BYTES,
    }
}

/// The name of each enumerated tag.
pub open spec fn tag_name_of(tag: u32) -> &'static str {
    if tag == FILAMENT_VAL_UNIT {
        "Unit"
    } else if tag == FILAMENT_VAL_BOOL {
        "Bool"
    } else if tag == FILAMENT_VAL_I64 {
        "I64"
    } else if tag == FILAMENT_VAL_U64 {
        "U64"
    } else if tag == FILAMENT_VAL_F64 {
        "F64"
    } else if tag == FILAMENT_VAL_STR {
        "Str"
    } else if tag == FILAMENT_VAL_BLOB {
        "Blob"
    } else if tag == FILAMENT_VAL_MAP {
        "Map"
    } else if tag == FILAMENT_VAL_LIST {
        "List"
    } else {
        "Bytes"
    }
}

/// The name of an enumerated value tag; `None` for a tag outside the set.
pub fn tag_name(tag: u32) -> (r: Option<&'static str>)
    ensures
        tag <= FILAMENT_VAL_BYTES ==> r == Some(tag_name_of(tag)),
        tag > FILAMENT_VAL_BYTES ==> r is None,
{
    match tag {
        FILAMENT_VAL_UNIT => Some("Unit"),
        FILAMENT_VAL_BOOL => Some("Bool"),
        FILAMENT_VAL_I64 => Some("I64"),
        FILAMENT_VAL_U64 => Some("U64"),
        FILAMENT_VAL_F64 => Some("F64"),
        FILAMENT_VAL_STR => Some("Str"),
        FILAMENT_VAL_BLOB => Some("Blob"),
        FILAMENT_VAL_MAP => Some("Map"),
        FILAMENT_VAL_LIST => Some("List"),
        FILAMENT_VAL_BYTES => Some("Bytes"),
        _ => None,
    }
}

/// The character of one decimal digit.
pub open spec fn digit_char(d: nat) -> char {
    if d == 0 {
        '0'
    } else if d == 1 {
        '1'
    } else if d == 2 {
        '2'
    } else if d == 3 {
        '3'
    } else if d == 4 {
        '4'
    } else if d == 5 {
        '5'
    } else if d == 6 {
        '6'
    } else if d == 7 {
        '7'
    } else if d == 8 {
        '8'
    } else {
        '9'
    }
}

/// A number written in decimal, most significant digit first.
pub open spec fn decimal(n: nat) -> Seq<char>
    decreases n,
{
    if n < 10 {
        seq![digit_char(n)]
    } else {
        decimal(n / 10).push(digit_char(n % 10))
    }
}

/// How a value with this tag shows in debug output: the tag's name, or
/// `UnknownValue(tag=N)` with the tag in decimal.
pub open spec fn tag_text_of(tag: u32) -> Seq<char> {
    if tag <= FILAMENT_VAL_BYTES {
        tag_name_of(tag)@
    } else {
        "UnknownValue(tag="@ + decimal(tag as nat) + ")"@
    }
}

fn digit(d: u32) -> (c: char)
    requires
        d < 10,
    ensures
        c == digit_char(d as nat),
{
    match d {
        0 => '0',
        1 => '1',
        2 => '2',
        3 => '3',
        4 => '4',
        5 => '5',
        6 => '6',
        7 => '7',
        8 => '8',
        _ => '9',
    }
}

fn push_decimal(out: &mut Vec<char>, n: u32)
    ensures
        final(out)@ == old(out)@ + decimal(n as nat),
    decreases n,
{
    if n >= 10 {
        push_decimal(out, n / 10);
    }
    out.push(digit(n % 10));
    proof {
        if n < 10 {
            assert(decimal(n as nat) =~= seq![digit_char(n as nat)]);
        }
        assert(out@ =~= old(out)@ + decimal(n as nat));
    }
}

/// Relies on std's `FromIterator<char>` for `String`: collecting characters
/// gives the string of those characters, in order.
#[verifier::external_body]
fn string_from_chars(chars: Vec<char>) -> (r: String)
    ensures
        r@ == chars@,
{
    chars.into_iter().collect()
}

/// The debug text of a value tag: its name, or `UnknownValue(tag=N)` for a tag
/// outside the enumerated set.
pub fn tag_text(tag: u32) -> (r: String)
    ensures
        r@ == tag_text_of(tag),
{
    match tag_name(tag) {
        Some(name) => name.to_owned(),
        None => {
            let mut out: Vec<char> = vec!['U', 'n', 'k', 'n', 'o', 'w', 'n', 'V', 'a', 'l', 'u', 'e', '(', 't', 'a', 'g', '='];
            push_decimal(&mut out, tag);
            out.push(')');
            proof {
                reveal_strlit("UnknownValue(tag=");
                reveal_strlit(")");
                assert(out@ =~= "UnknownValue(tag="@ + decimal(tag as nat) + ")"@);
            }
            string_from_chars(out)
        },
    }
}

proof fn lemma_items_depth_bound(s: Seq<FilamentValue>, i: int)
    requires
        0 <= i < s.len(),
    ensures
        depth(s[i]) <= items_depth(s),
    decreases s.len(),
{
    if i < s.len() - 1 {
        lemma_items_depth_bound(s.drop_last(), i);
    }
}

proof fn lemma_items_depth_prefix(s: Seq<FilamentValue>, n: int, budget: nat)
    requires
        0 <= n <= s.len(),
        forall|i: int| 0 <= i < n ==> depth(#[trigger] s[i]) <= budget,
    ensures
        items_depth(s.subrange(0, n)) <= budget,
    decreases n,
{
    if n > 0 {
        assert(s.subrange(0, n).drop_last() =~= s.subrange(0, n - 1));
        lemma_items_depth_prefix(s, n - 1, budget);
    }
}

proof fn lemma_entries_depth_bound(s: Seq<(String, FilamentValue)>, i: int)
    requires
        0 <= i < s.len(),
    ensures
        depth(s[i].1) <= entries_depth(s),
    decreases s.len(),
{
    if i < s.len() - 1 {
        lemma_entries_depth_bound(s.drop_last(), i);
    }
}

proof fn lemma_entries_depth_prefix(s: Seq<(String, FilamentValue)>, n: int, budget: nat)
    requires
        0 <= n <= s.len(),
        forall|i: int| 0 <= i < n ==> depth(#[trigger] s[i].1) <= budget,
    ensures
        entries_depth(s.subrange(0, n)) <= budget,
    decreases n,
{
    if n > 0 {
        assert(s.subrange(0, n).drop_last() =~= s.subrange(0, n - 1));
        lemma_entries_depth_prefix(s, n - 1, budget);
    }
}

fn items_within(items: &Vec<FilamentValue>, budget: u32) -> (r: bool)
    ensures
        r == (items_depth(items@) <= budget),
    decreases items@, 0int,
{
    let mut i: usize = 0;
    while i < items.len()
        invariant
            i <= items@.len(),
            forall|k: int| 0 <= k < i ==> depth(#[trigger] items@[k]) <= budget,
        decreases items@.len() - i,
    {
        proof {
            assert(decreases_to!(items@ => items@[i as int]));
        }
        if !items[i].within(budget) {
            proof {
                lemma_items_depth_bound(items@, i as int);
            }
            return false;
        }
        i = i + 1;
    }
    proof {
        lemma_items_depth_prefix(items@, i as int, budget as nat);
        assert(items@.subrange(0, i as int) =~= items@);
    }
    true
}

fn entries_within(entries: &Vec<(String, FilamentValue)>, budget: u32) -> (r: bool)
    ensures
        r == (entries_depth(entries@) <= budget),
    decreases entries@, 0int,
{
    let mut i: usize = 0;
    while i < entries.len()
        invariant
            i <= entries@.len(),
            forall|k: int| 0 <= k < i ==> depth(#[trigger] entries@[k].1) <= budget,
        decreases entries@.len() - i,
    {
        proof {
            assert(decreases_to!(entries@ => entries@[i as int].1));
        }
        if !entries[i].1.within(budget) {
            proof {
                lemma_entries_depth_bound(entries@, i as int);
            }
            return false;
        }
        i = i + 1;
    }
    proof {
        lemma_entries_depth_prefix(entries@, i as int, budget as nat);
        assert(entries@.subrange(0, i as int) =~= entries@);
    }
    true
}

impl FilamentValue {
    /// Whether the value nests no deeper than `budget`.
    pub fn within(&self, budget: u32) -> (r: bool)
        ensures
            r == (depth(*self) <= budget),
        decreases *self, 1int,
    {
        match self {
            FilamentValue::Dict(m) => {
                if budget == 0 {
                    false
                } else {
                    entries_within(m, budget - 1)
                }
            },
            FilamentValue::List(l) => {
                if budget == 0 {
                    false
                } else {
                    items_within(l, budget - 1)
                }
            },
            _ => true,
        }
    }

    /// The wire tag of this value.
    pub fn tag(&self) -> (r: u32)
        ensures
            r == tag_of(*self),
    {
        match self {
            FilamentValue::Unit => FILAMENT_VAL_UNIT,
            FilamentValue::Bool(_) => FILAMENT_VAL_BOOL,
            FilamentValue::I64(_) => FILAMENT_VAL_I64,
            FilamentValue::U64(_) => FILAMENT_VAL_U64,
            FilamentValue::F64(_) => FILAMENT_VAL_F64,
            FilamentValue::Str(_) => FILAMENT_VAL_STR,
            FilamentValue::Blob(_) => FILAMENT_VAL_BLOB,
            FilamentValue::Dict(_) => FILAMENT_VAL_MAP,
            FilamentValue::List(_) => FILAMENT_VAL_LIST,
            FilamentValue::Bytes(_) => FILAMENT_VAL_BYTES,
        }
    }

    /// Builds a list; one that would nest deeper than the recursion bound is
    /// refused with `Invalid`.
    pub fn list(items: Vec<FilamentValue>) -> (r: Result<FilamentValue, SystemError>)
        ensures
            r is Ok <==> 1 + items_depth(items@) <= FILAMENT_MAX_RECURSION_DEPTH,
            r matches Ok(v) ==> v == FilamentValue::List(items),
            r is Err ==> r == Err::<FilamentValue, SystemError>(SystemError::Invalid),
    {
        if items_within(&items, FILAMENT_MAX_RECURSION_DEPTH - 1) {
            Ok(FilamentValue::List(items))
        } else {
            Err(SystemError::Invalid)
        }
    }

    /// Builds a dictionary (the map constructor) from ordered key/value pairs; one that would nest deeper
    /// than the recursion bound is refused with `Invalid`.
    pub fn dict(entries: Vec<(String, FilamentValue)>) -> (r: Result<FilamentValue, SystemError>)
        ensures
            r is Ok <==> 1 + entries_depth(entries@) <= FILAMENT_MAX_RECURSION_DEPTH,
            r matches Ok(v) ==> v == FilamentValue::Dict(entries),
            r is Err ==> r == Err::<FilamentValue, SystemError>(SystemError::Invalid),
    {
        if entries_within(&entries, FILAMENT_MAX_RECURSION_DEPTH - 1) {
            Ok(FilamentValue::Dict(entries))
        } else {
            Err(SystemError::Invalid)
        }
    }

    /// Checks a value received from elsewhere against a recursion bound.
    pub fn validate(&self, max_depth: u32) -> (r: Result<(), SystemError>)
        ensures
            r is Ok <==> depth(*self) <= max_depth,
            r is Err ==> r == Err::<(), SystemError>(SystemError::Invalid),
    {
        if self.within(max_depth) {
            Ok(())
        } else {
            Err(SystemError::Invalid)
        }
    }
}

/// Wrapping a value in a one-element list nests it one level deeper; `list`
/// accepts the result exactly when that depth is within the recursion bound,
/// so a value nested 64 deep is built and one nested 65 deep is refused.
pub proof fn lemma_wrap_depth(v: FilamentValue, items: Vec<FilamentValue>)
    requires
        items@ == seq![v],
    ensures
        items_depth(items@) == depth(v),
        depth(FilamentValue::List(items)) == depth(v) + 1,
{
    assert(items@.drop_last() =~= Seq::<FilamentValue>::empty());
    assert(items_depth(items@.drop_last()) == 0);
    assert(items@.last() == v);
    assert(items_depth(items@) == depth(v));
}

} // verus!
