//! The generic value tree that evaluating a configuration document yields,
//! with checked downcasts.

use vstd::prelude::*;

verus! {

/// A dynamically typed value: a closed set of variants.
#[derive(Debug)]
pub enum Value {
    NoneValue,
    Bool(bool),
    Int(i64),
    Str(String),
    List(Vec<Value>),
    /// Entries in document order.
    Dict(Vec<(Value, Value)>),
}

/// Whether an entry's key is the string `key`.
pub open spec fn key_is(entry: (Value, Value), key: Seq<char>) -> bool {
    match entry.0 {
        Value::Str(s) => s@ == key,
        _ => false,
    }
}

/// What a mapping binds to `key`: the last entry with that key wins, as with
/// repeated insertion into a map.
pub open spec fn lookup(entries: Seq<(Value, Value)>, key: Seq<char>) -> Option<Value>
    decreases entries.len(),
{
    if entries.len() == 0 {
        None
    } else if key_is(entries.last(), key) {
        Some(entries.last().1)
    } else {
        lookup(entries.drop_last(), key)
    }
}

/// The strings of a sequence of values, or the index of the first element
/// that is not a string.
pub open spec fn strings_of(items: Seq<Value>) -> Result<Seq<Seq<char>>, int>
    decreases items.len(),
{
    if items.len() == 0 {
        Ok(Seq::empty())
    } else {
        match strings_of(items.drop_last()) {
            Err(i) => Err(i),
            Ok(p) => match items.last() {
                Value::Str(s) => Ok(p.push(s@)),
                _ => Err(items.len() - 1),
            },
        }
    }
}

/// The views of a sequence of strings.
pub open spec fn views_of(v: Seq<String>) -> Seq<Seq<char>> {
    v.map_values(|s: String| s@)
}

impl Value {
    /// The string this value holds, if it is one.
    pub fn as_str(&self) -> (r: Option<&String>)
        ensures
            match *self {
                Value::Str(s) => r == Some(&s),
                _ => r is None,
            },
    {
        match self {
            Value::Str(s) => Some(s),
            _ => None,
        }
    }

    /// The elements of this value, if it is a sequence.
    pub fn as_list(&self) -> (r: Option<&Vec<Value>>)
        ensures
            match *self {
                Value::List(items) => r == Some(&items),
                _ => r is None,
            },
    {
        match self {
            Value::List(items) => Some(items),
            _ => None,
        }
    }

    /// The entries of this value, if it is a mapping.
    pub fn as_dict(&self) -> (r: Option<&Vec<(Value, Value)>>)
        ensures
            match *self {
                Value::Dict(entries) => r == Some(&entries),
                _ => r is None,
            },
    {
        match self {
            Value::Dict(entries) => Some(entries),
            _ => None,
        }
    }
}

/// Looks up `key` among the entries of a mapping.
pub fn dict_get<'a>(entries: &'a Vec<(Value, Value)>, key: &str) -> (r: Option<&'a Value>)
    ensures
        match lookup(entries@, key@) {
            Some(v) => r == Some(&v),
            None => r is None,
        },
{
    let wanted = key.to_owned();
    let mut i: usize = entries.len();
    assert(entries@.subrange(0, i as int) =~= entries@);
    while i > 0
        invariant
            i <= entries@.len(),
            wanted@ == key@,
            lookup(entries@, key@) == lookup(entries@.subrange(0, i as int), key@),
        decreases i,
    {
        let ghost prefix = entries@.subrange(0, i as int);
        assert(prefix.drop_last() =~= entries@.subrange(0, i - 1));
        let entry = &entries[i - 1];
        if let Value::Str(k) = &entry.0 {
            if *k == wanted {
                return Some(&entry.1);
            }
        }
        i = i - 1;
    }
    None
}

/// The strings of a sequence of values, or the index of the first element
/// that is not a string.
pub fn collect_strings(items: &Vec<Value>) -> (r: Result<Vec<String>, usize>)
    ensures
        match r {
            Ok(v) => strings_of(items@) == Ok::<Seq<Seq<char>>, int>(views_of(v@)),
            Err(i) => strings_of(items@) == Err::<Seq<Seq<char>>, int>(i as int),
        },
{
    let mut out: Vec<String> = Vec::new();
    let mut i: usize = 0;
    assert(items@.subrange(0, 0) =~= Seq::<Value>::empty());
    assert(views_of(out@) =~= Seq::<Seq<char>>::empty());
    while i < items.len()
        invariant
            i <= items@.len(),
            strings_of(items@.subrange(0, i as int)) == Ok::<Seq<Seq<char>>, int>(views_of(out@)),
        decreases items.len() - i,
    {
        assert(items@.subrange(0, i + 1).drop_last() =~= items@.subrange(0, i as int));
        match &items[i] {
            Value::Str(s) => {
                let ghost before = out@;
                out.push(s.clone());
                assert(out@.drop_last() =~= before);
                assert(views_of(out@) =~= views_of(before).push(s@));
            },
            _ => {
                proof { lemma_strings_of_err_extends(items@, i as int + 1); }
                return Err(i);
            },
        }
        i = i + 1;
    }
    assert(items@.subrange(0, i as int) =~= items@);
    Ok(out)
}

/// A failure in a prefix of the items is the failure of the whole sequence.
proof fn lemma_strings_of_err_extends(items: Seq<Value>, n: int)
    requires
        0 <= n <= items.len(),
        strings_of(items.subrange(0, n)) is Err,
    ensures
        strings_of(items) == strings_of(items.subrange(0, n)),
    decreases items.len() - n,
{
    if n == items.len() {
        assert(items.subrange(0, n) =~= items);
    } else {
        assert(items.subrange(0, n + 1).drop_last() =~= items.subrange(0, n));
        lemma_strings_of_err_extends(items, n + 1);
    }
}

} // verus!
