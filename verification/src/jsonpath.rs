//! A small JSONPath subset (`$`, `$.a.b[0].c`, `.a.b`) over a parsed JSON
//! document, and how a JSON value is compared as text.

use vstd::prelude::*;
use serde_json::Value;
use crate::text::{append_str, chars_of, trim, trim_str};

verus! {

/// One value of a JSON document.
pub struct JsonNode {
    /// The value's compact JSON text, as `serde_json` renders it.
    pub text: String,
    /// For a string, its contents; none for other values.
    pub string: Option<String>,
    /// The elements of an array, as node indices (none for other values).
    pub items: Vec<usize>,
    /// The members of an object, in the object's order, as key and node
    /// index (none for other values).
    pub members: Vec<(String, usize)>,
}

/// A parsed JSON document: its values and the index of the root.
pub struct JsonDoc {
    pub nodes: Vec<JsonNode>,
    pub root: usize,
}

/// The document that `serde_json` parses from `text`, flattened into nodes
/// in breadth-first order from the root (node 0), each node holding its
/// compact text, its contents if it is a string, and its elements or
/// members (in the parsed object's order) as node indices; `None` where
/// `text` is not JSON.
pub uninterp spec fn json_document(text: Seq<char>) -> Option<JsonDoc>;

/// `serde_json::from_str` into a `serde_json::Value`, converted value by
/// value into the nodes of a `JsonDoc`. Every index the conversion writes
/// names a node it creates, so the document is well formed.
#[verifier::external_body]
pub(crate) fn parse_json(text: &str) -> (r: Option<JsonDoc>)
    ensures
        r == json_document(text@),
        r matches Some(d) ==> d.wf(),
{
    let root: Value = serde_json::from_str(text).ok()?;
    let mut vals = vec![&root];
    let mut nodes = Vec::new();
    while let Some(&v) = vals.get(nodes.len()) {
        nodes.push(JsonNode {
            text: v.to_string(),
            string: v.as_str().map(String::from),
            items: v.as_array().into_iter().flatten().map(|x| (vals.len(), vals.push(x)).0).collect(),
            members: v.as_object().into_iter().flatten().map(|(k, x)| (k.clone(), (vals.len(), vals.push(x)).0)).collect(),
        });
    }
    Some(JsonDoc { nodes, root: 0 })
}

/// The first index of `c` in `s`, or `s.len()` when absent.
pub open spec fn first_index_of(s: Seq<char>, c: char) -> int
    decreases s.len(),
{
    if s.len() == 0 {
        0
    } else if s[0] == c {
        0
    } else {
        1 + first_index_of(s.drop_first(), c)
    }
}

/// `first_index_of` is a position within `s`: it holds `c` when it is below
/// the length, and no earlier position holds `c`.
pub proof fn lemma_first_index_bounds(s: Seq<char>, c: char)
    ensures
        0 <= first_index_of(s, c) <= s.len(),
        first_index_of(s, c) < s.len() ==> s[first_index_of(s, c)] == c,
        forall|j: int| 0 <= j < first_index_of(s, c) ==> s[j] != c,
    decreases s.len(),
{
    if s.len() > 0 && s[0] != c {
        lemma_first_index_bounds(s.drop_first(), c);
        assert forall|j: int| 0 <= j < first_index_of(s, c) implies s[j] != c by {
            if j > 0 {
                assert(s[j] == s.drop_first()[j - 1]);
            }
        }
    }
}

/// The decimal value of a digit string.
pub open spec fn digits_value(d: Seq<char>) -> nat
    decreases d.len(),
{
    if d.len() == 0 {
        0
    } else {
        digits_value(d.drop_last()) * 10 + ((d.last() as u32) - 48) as nat
    }
}

/// `usize::from_str`: an optional `+`, then one or more ASCII digits whose
/// value fits in a `usize`.
pub open spec fn parse_index(s: Seq<char>) -> Option<nat> {
    parse_digits(if s.len() > 0 && s[0] == '+' { s.drop_first() } else { s })
}

/// One or more ASCII digits whose value fits in a `usize`.
pub open spec fn parse_digits(d: Seq<char>) -> Option<nat> {
    if d.len() > 0 && (forall|i: int| 0 <= i < d.len() ==> '0' <= #[trigger] d[i] && d[i] <= '9')
        && digits_value(d) <= usize::MAX {
        Some(digits_value(d))
    } else {
        None
    }
}

proof fn lemma_digits_monotone(d: Seq<char>, k: int)
    requires
        0 <= k <= d.len(),
        forall|i: int| 0 <= i < d.len() ==> '0' <= #[trigger] d[i] && d[i] <= '9',
    ensures
        digits_value(d.take(k)) <= digits_value(d),
    decreases d.len() - k,
{
    if k < d.len() {
        lemma_digits_monotone(d, k + 1);
        let t = d.take(k + 1);
        assert(t.drop_last() =~= d.take(k));
        assert(digits_value(t) == digits_value(d.take(k)) * 10 + ((t.last() as u32) - 48) as nat);
    } else {
        assert(d.take(k) =~= d);
    }
}

/// Parses `v[from..to]` as `usize::from_str` does.
fn parse_index_exec(v: &Vec<char>, from: usize, to: usize) -> (r: Option<usize>)
    requires
        from <= to <= v@.len(),
    ensures
        match r {
            Some(x) => parse_index(v@.subrange(from as int, to as int)) == Some(x as nat),
            None => parse_index(v@.subrange(from as int, to as int)) is None,
        },
{
    let ghost s = v@.subrange(from as int, to as int);
    let mut start = from;
    if from < to && v[from] == '+' {
        start = from + 1;
    }
    let ghost d = v@.subrange(start as int, to as int);
    proof {
        if from < to && v@[from as int] == '+' {
            assert(s.drop_first() =~= d);
        } else {
            assert(s =~= d);
        }
    }
    if start >= to {
        return None;
    }
    proof { assert(parse_index(s) == parse_digits(d)); }
    let mut value: usize = 0;
    let mut i = start;
    proof { assert(d.take(0) =~= Seq::<char>::empty()); }
    while i < to
        invariant
            start <= i <= to,
            to <= v@.len(),
            d == v@.subrange(start as int, to as int),
            d.len() > 0,
            parse_index(v@.subrange(from as int, to as int)) == parse_digits(d),
            forall|j: int| 0 <= j < i - start ==> '0' <= #[trigger] d[j] && d[j] <= '9',
            value as nat == digits_value(d.take(i - start)),
        decreases to - i,
    {
        let c = v[i];
        if !('0' <= c && c <= '9') {
            proof { assert(d[i - start] == c); }
            return None;
        }
        let dv = (c as u32 - 48) as usize;
        let ghost t = d.take(i + 1 - start);
        proof {
            assert(t.drop_last() =~= d.take(i - start));
            assert(t.last() == c);
            assert(d[i - start] == c);
        }
        let m = value.checked_mul(10);
        let m = match m {
            Some(m) => m,
            None => {
                return overflow_or_invalid(v, start, to, i, value);
            },
        };
        let a = m.checked_add(dv);
        match a {
            Some(a) => {
                value = a;
            },
            None => {
                return overflow_or_invalid(v, start, to, i, value);
            },
        }
        i = i + 1;
    }
    proof {
        assert(d.take(to - start) =~= d);
    }
    Some(value)
}

/// After the digits `v[start..i]` with `value`, appending `v[i]` no longer
/// fits in a `usize`: the whole string either has a non-digit or is too big.
fn overflow_or_invalid(v: &Vec<char>, start: usize, to: usize, i: usize, value: usize) -> (r: Option<usize>)
    requires
        start <= i < to <= v@.len(),
        forall|j: int| 0 <= j < i - start ==> '0' <= #[trigger] v@.subrange(start as int, to as int)[j]
            && v@.subrange(start as int, to as int)[j] <= '9',
        '0' <= v@[i as int] <= '9',
        value as nat == digits_value(v@.subrange(start as int, to as int).take(i - start)),
        value as nat * 10 + ((v@[i as int] as u32) - 48) as nat > usize::MAX,
    ensures
        r is None,
        parse_digits(v@.subrange(start as int, to as int)) is None,
{
    let ghost d = v@.subrange(start as int, to as int);
    let mut j = i + 1;
    while j < to
        invariant
            start <= i < j <= to,
            to <= v@.len(),
            d == v@.subrange(start as int, to as int),
            forall|q: int| 0 <= q < j - start ==> '0' <= #[trigger] d[q] && d[q] <= '9',
        decreases to - j,
    {
        let c = v[j];
        proof { assert(d[j - start] == v@[j as int]); }
        if !('0' <= c && c <= '9') {
            return None;
        }
        j = j + 1;
    }
    proof {
        let t = d.take(i + 1 - start);
        assert(t.drop_last() =~= d.take(i - start));
        assert(t.last() == v@[i as int]);
        lemma_digits_monotone(d, i + 1 - start);
    }
    None
}


/// The node that object member `key` names in the first member list entry
/// with that key.
pub open spec fn member_index(ms: Seq<(String, usize)>, key: Seq<char>) -> Option<usize>
    decreases ms.len(),
{
    if ms.len() == 0 {
        None
    } else if ms[0].0@ == key {
        Some(ms[0].1)
    } else {
        member_index(ms.drop_first(), key)
    }
}

/// Member `key` of node `cur`, when `cur` is an object that has it.
pub open spec fn member(doc: JsonDoc, cur: usize, key: Seq<char>) -> Option<usize> {
    if cur < doc.nodes@.len() {
        member_index(doc.nodes@[cur as int].members@, key)
    } else {
        None
    }
}

/// Element `i` of node `cur`, when `cur` is an array that long.
pub open spec fn item(doc: JsonDoc, cur: usize, i: nat) -> Option<usize> {
    if cur < doc.nodes@.len() && i < doc.nodes@[cur as int].items@.len() {
        Some(doc.nodes@[cur as int].items@[i as int])
    } else {
        None
    }
}

/// Follows zero or more `[index]` parts; anything else left over fails.
pub open spec fn brackets(doc: JsonDoc, cur: usize, s: Seq<char>) -> Option<usize>
    decreases s.len(),
{
    if s.len() == 0 {
        Some(cur)
    } else if s[0] != '[' {
        None
    } else {
        let close = first_index_of(s, ']');
        proof { lemma_first_index_bounds(s, ']'); }
        if close >= s.len() {
            None
        } else {
            match parse_index(s.subrange(1, close)) {
                None => None,
                Some(i) => match item(doc, cur, i) {
                    None => None,
                    Some(n) => brackets(doc, n, s.skip(close + 1)),
                },
            }
        }
    }
}

/// Follows one dot-separated segment: an optional key, then indices.
pub open spec fn segment(doc: JsonDoc, cur: usize, seg: Seq<char>) -> Option<usize> {
    if seg.len() == 0 {
        Some(cur)
    } else if seg[0] == '[' {
        brackets(doc, cur, seg)
    } else {
        let k = first_index_of(seg, '[');
        match member(doc, cur, seg.take(k)) {
            None => None,
            Some(n) => brackets(doc, n, seg.skip(k)),
        }
    }
}

/// Follows every dot-separated segment of `s`.
pub open spec fn walk(doc: JsonDoc, cur: usize, s: Seq<char>) -> Option<usize>
    decreases s.len(),
{
    let d = first_index_of(s, '.');
    proof { lemma_first_index_bounds(s, '.'); }
    match segment(doc, cur, s.take(d)) {
        None => None,
        Some(n) => if d >= s.len() { Some(n) } else { walk(doc, n, s.skip(d + 1)) },
    }
}

/// The path without its leading `$.`, `$` or `.`.
pub open spec fn path_body(p: Seq<char>) -> Seq<char> {
    if p.len() >= 2 && p[0] == '$' && p[1] == '.' {
        p.skip(2)
    } else if p.len() >= 1 && p[0] == '$' {
        let q = p.skip(1);
        if q.len() > 0 && q[0] == '.' { q.skip(1) } else { q }
    } else if p.len() >= 1 && p[0] == '.' {
        p.skip(1)
    } else {
        p
    }
}

/// The node that `path` selects: the root for an empty path or `$`.
pub open spec fn lookup_spec(doc: JsonDoc, path: Seq<char>) -> Option<usize> {
    let p = trim(path);
    if p.len() == 0 || (p.len() == 1 && p[0] == '$') {
        Some(doc.root)
    } else {
        walk(doc, doc.root, path_body(p))
    }
}

fn find_char_in(v: &Vec<char>, from: usize, to: usize, c: char) -> (r: usize)
    requires
        from <= to <= v@.len(),
    ensures
        r == from + first_index_of(v@.subrange(from as int, to as int), c),
        from <= r <= to,
{
    let mut i = from;
    proof { assert(v@.subrange(from as int, to as int).skip(0) =~= v@.subrange(from as int, to as int)); }
    while i < to && v[i] != c
        invariant
            from <= i <= to,
            to <= v@.len(),
            first_index_of(v@.subrange(from as int, to as int), c) == (i - from) + first_index_of(v@.subrange(i as int, to as int), c),
        decreases to - i,
    {
        proof {
            assert(v@.subrange(i as int, to as int).drop_first() =~= v@.subrange(i + 1, to as int));
        }
        i = i + 1;
    }
    proof {
        if i < to {
            assert(v@.subrange(i as int, to as int)[0] == c);
        } else {
            assert(v@.subrange(i as int, to as int) =~= Seq::<char>::empty());
        }
    }
    i
}

fn member_exec(doc: &JsonDoc, cur: usize, key: &str) -> (r: Option<usize>)
    ensures
        r == member(*doc, cur, key@),
{
    if cur >= doc.nodes.len() {
        return None;
    }
    let ms = &doc.nodes[cur].members;
    let n = ms.len();
    let mut i: usize = 0;
    proof { assert(ms@.skip(0) =~= ms@); }
    while i < n
        invariant
            n == ms@.len(),
            i <= n,
            member_index(ms@, key@) == member_index(ms@.skip(i as int), key@),
            member(*doc, cur, key@) == member_index(ms@, key@),
        decreases n - i,
    {
        proof { assert(ms@.skip(i as int)[0] == ms@[i as int]); }
        if crate::strmap::str_eq(ms[i].0.as_str(), key) {
            return Some(ms[i].1);
        }
        proof { assert(ms@.skip(i as int).drop_first() =~= ms@.skip(i + 1)); }
        i = i + 1;
    }
    proof { assert(ms@.skip(n as int) =~= Seq::<(String, usize)>::empty()); }
    None
}

fn item_exec(doc: &JsonDoc, cur: usize, i: usize) -> (r: Option<usize>)
    ensures
        r == item(*doc, cur, i as nat),
{
    if cur < doc.nodes.len() && i < doc.nodes[cur].items.len() {
        Some(doc.nodes[cur].items[i])
    } else {
        None
    }
}

fn brackets_exec(doc: &JsonDoc, cur: usize, v: &Vec<char>, from: usize, to: usize) -> (r: Option<usize>)
    requires
        from <= to <= v@.len(),
    ensures
        r == brackets(*doc, cur, v@.subrange(from as int, to as int)),
    decreases to - from,
{
    let ghost s = v@.subrange(from as int, to as int);
    if from == to {
        return Some(cur);
    }
    proof { assert(s[0] == v@[from as int]); }
    if v[from] != '[' {
        return None;
    }
    let close = find_char_in(v, from, to, ']');
    if close == to {
        return None;
    }
    proof {
        lemma_first_index_bounds(s, ']');
        assert(s.subrange(1, close - from) =~= v@.subrange(from + 1, close as int));
        assert(s.skip(close - from + 1) =~= v@.subrange(close + 1, to as int));
    }
    let idx = match parse_index_exec(v, from + 1, close) {
        Some(i) => i,
        None => return None,
    };
    match item_exec(doc, cur, idx) {
        None => None,
        Some(n) => brackets_exec(doc, n, v, close + 1, to),
    }
}

fn segment_exec(doc: &JsonDoc, cur: usize, v: &Vec<char>, from: usize, to: usize) -> (r: Option<usize>)
    requires
        from <= to <= v@.len(),
    ensures
        r == segment(*doc, cur, v@.subrange(from as int, to as int)),
{
    let ghost s = v@.subrange(from as int, to as int);
    if from == to {
        return Some(cur);
    }
    proof { assert(s[0] == v@[from as int]); }
    if v[from] == '[' {
        return brackets_exec(doc, cur, v, from, to);
    }
    let k = find_char_in(v, from, to, '[');
    let key = crate::text::string_from(v, from, k);
    proof {
        assert(s.take(k - from) =~= v@.subrange(from as int, k as int));
        assert(s.skip(k - from) =~= v@.subrange(k as int, to as int));
    }
    match member_exec(doc, cur, key.as_str()) {
        None => None,
        Some(n) => brackets_exec(doc, n, v, k, to),
    }
}

fn walk_exec(doc: &JsonDoc, cur: usize, v: &Vec<char>, from: usize, to: usize) -> (r: Option<usize>)
    requires
        from <= to <= v@.len(),
    ensures
        r == walk(*doc, cur, v@.subrange(from as int, to as int)),
    decreases to - from,
{
    let ghost s = v@.subrange(from as int, to as int);
    let d = find_char_in(v, from, to, '.');
    proof {
        assert(s.take(d - from) =~= v@.subrange(from as int, d as int));
    }
    match segment_exec(doc, cur, v, from, d) {
        None => None,
        Some(n) => {
            if d == to {
                Some(n)
            } else {
                proof { assert(s.skip(d - from + 1) =~= v@.subrange(d + 1, to as int)); }
                walk_exec(doc, n, v, d + 1, to)
            }
        },
    }
}

/// The node that a small JSONPath selects: `$` (the root), `$.a.b[0].c`,
/// or `.a.b` (read as `$.a.b`); filters, wildcards, slices and recursive
/// descent are not supported and select nothing.
pub fn lookup(doc: &JsonDoc, path: &str) -> (r: Option<usize>)
    ensures
        r == lookup_spec(*doc, path@),
{
    let t = trim_str(path);
    let v = chars_of(t.as_str());
    let n = v.len();
    if n == 0 || (n == 1 && v[0] == '$') {
        return Some(doc.root);
    }
    let ghost p = v@;
    let start: usize = if n >= 2 && v[0] == '$' && v[1] == '.' {
        2
    } else if v[0] == '$' {
        if n >= 2 && v[1] == '.' { 2 } else { 1 }
    } else if v[0] == '.' {
        1
    } else {
        0
    };
    proof {
        if n >= 2 && p[0] == '$' && p[1] == '.' {
            assert(path_body(p) =~= p.subrange(2, n as int));
        } else if p[0] == '$' {
            let q = p.skip(1);
            if n >= 2 && p[1] == '.' {
                assert(q[0] == p[1]);
                assert(q.skip(1) =~= p.subrange(2, n as int));
            } else {
                if q.len() > 0 {
                    assert(q[0] == p[1]);
                }
                assert(q =~= p.subrange(1, n as int));
            }
        } else if p[0] == '.' {
            assert(path_body(p) =~= p.subrange(1, n as int));
        } else {
            assert(path_body(p) =~= p.subrange(0, n as int));
        }
    }
    walk_exec(doc, doc.root, &v, start, n)
}

/// How a JSON value compares as text: a string's contents, or the value's
/// compact JSON text (`null` for null).
pub open spec fn value_text(doc: JsonDoc, i: usize) -> Seq<char> {
    let node = doc.nodes@[i as int];
    match node.string {
        Some(s) => s@,
        None => node.text@,
    }
}

/// The text of node `i`.
pub fn value_to_string(doc: &JsonDoc, i: usize) -> (r: String)
    requires
        i < doc.nodes@.len(),
    ensures
        r@ == value_text(*doc, i),
{
    let node = &doc.nodes[i];
    match &node.string {
        Some(s) => s.clone(),
        None => node.text.clone(),
    }
}

impl JsonDoc {
    /// The root and every element and member name an existing node.
    pub open spec fn wf(&self) -> bool {
        &&& self.root < self.nodes@.len()
        &&& forall|i: int, j: int| 0 <= i < self.nodes@.len() && 0 <= j < self.nodes@[i].items@.len()
            ==> #[trigger] self.nodes@[i].items@[j] < self.nodes@.len()
        &&& forall|i: int, j: int| 0 <= i < self.nodes@.len() && 0 <= j < self.nodes@[i].members@.len()
            ==> #[trigger] self.nodes@[i].members@[j].1 < self.nodes@.len()
    }

    /// Whether the document is well formed.
    pub fn check_wf(&self) -> (b: bool)
        ensures
            b == self.wf(),
    {
        let n = self.nodes.len();
        if self.root >= n {
            return false;
        }
        let mut i: usize = 0;
        while i < n
            invariant
                n == self.nodes@.len(),
                i <= n,
                forall|a: int, j: int| 0 <= a < i && 0 <= j < self.nodes@[a].items@.len()
                    ==> #[trigger] self.nodes@[a].items@[j] < n,
                forall|a: int, j: int| 0 <= a < i && 0 <= j < self.nodes@[a].members@.len()
                    ==> #[trigger] self.nodes@[a].members@[j].1 < n,
            decreases n - i,
        {
            let node = &self.nodes[i];
            let mut j: usize = 0;
            while j < node.items.len()
                invariant
                    n == self.nodes@.len(),
                    i < n,
                    *node == self.nodes@[i as int],
                    j <= node.items@.len(),
                    forall|q: int| 0 <= q < j ==> #[trigger] node.items@[q] < n,
                decreases node.items@.len() - j,
            {
                if node.items[j] >= n {
                    return false;
                }
                j = j + 1;
            }
            let mut k: usize = 0;
            while k < node.members.len()
                invariant
                    n == self.nodes@.len(),
                    i < n,
                    *node == self.nodes@[i as int],
                    k <= node.members@.len(),
                    forall|q: int| 0 <= q < k ==> #[trigger] node.members@[q].1 < n,
                decreases node.members@.len() - k,
            {
                if node.members[k].1 >= n {
                    return false;
                }
                k = k + 1;
            }
            i = i + 1;
        }
        true
    }
}

proof fn lemma_member_index_in(ms: Seq<(String, usize)>, key: Seq<char>)
    ensures
        member_index(ms, key) matches Some(n) ==> exists|j: int| 0 <= j < ms.len() && #[trigger] ms[j].1 == n,
    decreases ms.len(),
{
    if ms.len() > 0 && ms[0].0@ != key {
        lemma_member_index_in(ms.drop_first(), key);
        if member_index(ms, key) is Some {
            let j = choose|j: int| 0 <= j < ms.drop_first().len() && #[trigger] ms.drop_first()[j].1 == member_index(ms, key)->0;
            assert(ms[j + 1].1 == member_index(ms, key)->0);
        }
    } else if ms.len() > 0 {
        assert(ms[0].1 == member_index(ms, key)->0);
    }
}

proof fn lemma_brackets_valid(doc: JsonDoc, cur: usize, s: Seq<char>)
    requires
        doc.wf(),
        cur < doc.nodes@.len(),
    ensures
        brackets(doc, cur, s) matches Some(n) ==> n < doc.nodes@.len(),
    decreases s.len(),
{
    if s.len() > 0 && s[0] == '[' {
        let close = first_index_of(s, ']');
        lemma_first_index_bounds(s, ']');
        if close < s.len() {
            if let Some(i) = parse_index(s.subrange(1, close)) {
                if let Some(n) = item(doc, cur, i) {
                    assert(doc.nodes@[cur as int].items@[i as int] < doc.nodes@.len());
                    lemma_brackets_valid(doc, n, s.skip(close + 1));
                }
            }
        }
    }
}

proof fn lemma_segment_valid(doc: JsonDoc, cur: usize, s: Seq<char>)
    requires
        doc.wf(),
        cur < doc.nodes@.len(),
    ensures
        segment(doc, cur, s) matches Some(n) ==> n < doc.nodes@.len(),
{
    if s.len() > 0 {
        if s[0] == '[' {
            lemma_brackets_valid(doc, cur, s);
        } else {
            let k = first_index_of(s, '[');
            if let Some(n) = member(doc, cur, s.take(k)) {
                lemma_member_index_in(doc.nodes@[cur as int].members@, s.take(k));
                let j = choose|j: int| 0 <= j < doc.nodes@[cur as int].members@.len() && #[trigger] doc.nodes@[cur as int].members@[j].1 == n;
                lemma_brackets_valid(doc, n, s.skip(k));
            }
        }
    }
}

proof fn lemma_walk_valid(doc: JsonDoc, cur: usize, s: Seq<char>)
    requires
        doc.wf(),
        cur < doc.nodes@.len(),
    ensures
        walk(doc, cur, s) matches Some(n) ==> n < doc.nodes@.len(),
    decreases s.len(),
{
    let d = first_index_of(s, '.');
    lemma_first_index_bounds(s, '.');
    lemma_segment_valid(doc, cur, s.take(d));
    if let Some(n) = segment(doc, cur, s.take(d)) {
        if d < s.len() {
            lemma_walk_valid(doc, n, s.skip(d + 1));
        }
    }
}

/// In a well-formed document a path selects an existing node, if any.
pub proof fn lemma_lookup_valid(doc: JsonDoc, path: Seq<char>)
    requires
        doc.wf(),
    ensures
        lookup_spec(doc, path) matches Some(n) ==> n < doc.nodes@.len(),
{
    lemma_walk_valid(doc, doc.root, path_body(trim(path)));
}

/// Behind a non-empty prefix that ends in a non-whitespace character, the
/// trailing whitespace of `p` is the trailing whitespace of the whole.
proof fn lemma_trailing_ws_after(c: Seq<char>, p: Seq<char>)
    requires
        c.len() > 0,
        !crate::text::is_whitespace(c.last()),
    ensures
        crate::text::trailing_ws(c + p) == crate::text::trailing_ws(p),
    decreases p.len(),
{
    if p.len() == 0 {
        assert(c + p =~= c);
    } else {
        assert((c + p).last() == p.last());
        assert((c + p).drop_last() =~= c + p.drop_last());
        lemma_trailing_ws_after(c, p.drop_last());
    }
}

/// A path written `.a.b` selects exactly what `$.a.b` selects.
pub proof fn law_dot_path_is_rooted(doc: JsonDoc, p: Seq<char>)
    ensures
        lookup_spec(doc, seq!['.'] + p) == lookup_spec(doc, seq!['$', '.'] + p),
{
    let a = seq!['.'] + p;
    let b = seq!['$', '.'] + p;
    lemma_trailing_ws_after(seq!['.'], p);
    lemma_trailing_ws_after(seq!['$', '.'], p);
    crate::text::lemma_trailing_ws_bound(p);
    assert(a[0] == '.');
    assert(b[0] == '$');
    assert(crate::text::leading_ws(a) == 0);
    assert(crate::text::leading_ws(b) == 0);
    assert(a.skip(0) =~= a);
    assert(b.skip(0) =~= b);
    let q = p.take(p.len() - crate::text::trailing_ws(p));
    assert(trim(a) =~= seq!['.'] + q);
    assert(trim(b) =~= seq!['$', '.'] + q);
    assert(path_body(seq!['.'] + q) =~= q);
    assert(path_body(seq!['$', '.'] + q) =~= q);
}

/// The value of a number's decimal rendering is the number.
proof fn lemma_digits_of_decimal(n: nat)
    ensures
        digits_value(crate::text::decimal(n)) == n,
        crate::text::decimal(n).len() > 0,
        forall|i: int| 0 <= i < crate::text::decimal(n).len()
            ==> '0' <= #[trigger] crate::text::decimal(n)[i] && crate::text::decimal(n)[i] <= '9',
    decreases n,
{
    let d = crate::text::decimal(n);
    if n < 10 {
        assert(d.drop_last() =~= Seq::<char>::empty());
        assert(digits_value(Seq::<char>::empty()) == 0);
        assert((crate::text::digit_char(n) as u32) == n + 48);
        assert(d.last() == crate::text::digit_char(n));
        assert(digits_value(d) == digits_value(d.drop_last()) * 10 + ((d.last() as u32) - 48) as nat);
    } else {
        lemma_digits_of_decimal(n / 10);
        assert(d.drop_last() =~= crate::text::decimal(n / 10));
        assert((crate::text::digit_char(n % 10) as u32) == n % 10 + 48);
        assert(d.last() == crate::text::digit_char(n % 10));
        assert(digits_value(d) == digits_value(d.drop_last()) * 10 + ((d.last() as u32) - 48) as nat);
        assert(n == (n / 10) * 10 + n % 10) by (nonlinear_arith);
        assert forall|i: int| 0 <= i < d.len() implies '0' <= #[trigger] d[i] && d[i] <= '9' by {
            if i < d.len() - 1 {
                assert(d[i] == crate::text::decimal(n / 10)[i]);
            }
        }
    }
}

/// An index written in decimal, with or without a leading `+`, parses to
/// its full value, for every index that fits in a `usize`.
pub proof fn law_index_parses_to_its_value(n: nat)
    requires
        n <= usize::MAX,
    ensures
        parse_index(crate::text::decimal(n)) == Some(n),
        parse_index(seq!['+'] + crate::text::decimal(n)) == Some(n),
{
    lemma_digits_of_decimal(n);
    let d = crate::text::decimal(n);
    assert(d[0] != '+');
    assert((seq!['+'] + d).drop_first() =~= d);
}

/// `[n]` selects element `n` of an array node (and nothing where the node
/// has no element `n`), for every index `n` that fits in a `usize`.
pub proof fn law_bracket_selects_element(doc: JsonDoc, cur: usize, n: nat)
    requires
        n <= usize::MAX,
    ensures
        brackets(doc, cur, seq!['['] + crate::text::decimal(n) + seq![']']) == item(doc, cur, n),
{
    lemma_digits_of_decimal(n);
    let d = crate::text::decimal(n);
    let s = seq!['['] + d + seq![']'];
    law_index_parses_to_its_value(n);
    lemma_first_index_bounds(s, ']');
    let k: int = d.len() as int;
    assert(s[k + 1] == ']');
    assert forall|j: int| 0 <= j < k + 1 implies s[j] != ']' by {
        if j > 0 {
            assert(s[j] == d[j - 1]);
        }
    }
    assert(first_index_of(s, ']') == k + 1);
    assert(s.subrange(1, k + 1) =~= d);
    assert(s.skip(k + 2) =~= Seq::<char>::empty());
    assert(s[0] == '[');
    assert(s.subrange(1, first_index_of(s, ']')) =~= d);
    match item(doc, cur, n) {
        Some(m) => {
            assert(brackets(doc, m, Seq::<char>::empty()) == Some(m));
            assert(brackets(doc, cur, s) == brackets(doc, m, s.skip(k + 2)));
        },
        None => {},
    }
}

} // verus!
