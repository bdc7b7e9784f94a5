//! Journal records: a mapping from field names to field values, and the
//! decoder that builds one from the raw field buffers of an entry.

use vstd::prelude::*;

verus! {

/// The byte that parts a field's name from its value.
pub const SEPARATOR: u8 = 61;

/// `i` is the place of the first separator in `buf`.
pub open spec fn first_separator_at(buf: Seq<u8>, i: int) -> bool {
    &&& 0 <= i < buf.len()
    &&& buf[i] == SEPARATOR
    &&& forall|j: int| 0 <= j < i ==> buf[j] != SEPARATOR
}

/// `buf` holds a separator.
pub open spec fn has_separator(buf: Seq<u8>) -> bool {
    exists|i: int| first_separator_at(buf, i)
}

/// The place of the first separator of a buffer that has one.
pub open spec fn separator(buf: Seq<u8>) -> int {
    choose|i: int| first_separator_at(buf, i)
}

/// What stands before the first separator.
pub open spec fn field_name(buf: Seq<u8>) -> Seq<u8> {
    buf.subrange(0, separator(buf))
}

/// What stands behind the first separator, later separators included.
pub open spec fn field_value(buf: Seq<u8>) -> Seq<u8> {
    buf.subrange(separator(buf) + 1, buf.len() as int)
}

/// A buffer has at most one first separator.
pub proof fn lemma_separator_unique(buf: Seq<u8>, i: int)
    requires
        first_separator_at(buf, i),
    ensures
        has_separator(buf),
        separator(buf) == i,
{
    let k = separator(buf);
    assert(first_separator_at(buf, k));
    if k < i {
        assert(buf[k] != SEPARATOR);
    }
    if i < k {
        assert(buf[i] != SEPARATOR);
    }
}

/// One field of a record.
#[derive(Debug)]
pub struct Field {
    pub name: Vec<u8>,
    pub value: Vec<u8>,
}

/// Splits a raw field buffer at its first separator. A buffer without one is
/// malformed and gives `None`.
pub fn split_field(buf: &[u8]) -> (r: Option<Field>)
    ensures
        r.is_some() == has_separator(buf@),
        r matches Some(f) ==> f.name@ == field_name(buf@) && f.value@ == field_value(buf@),
{
    let n: usize = buf.len();
    let mut i: usize = 0;
    while i < n && buf[i] != SEPARATOR
        invariant
            n == buf@.len(),
            i <= n,
            forall|j: int| 0 <= j < i ==> buf@[j] != SEPARATOR,
        decreases n - i,
    {
        i = i + 1;
    }
    if i == n {
        proof {
            if has_separator(buf@) {
                let k = separator(buf@);
                assert(buf@[k] == SEPARATOR);
            }
        }
        return None;
    }
    proof {
        lemma_separator_unique(buf@, i as int);
    }
    let mut name: Vec<u8> = Vec::new();
    let mut k: usize = 0;
    while k < i
        invariant
            n == buf@.len(),
            k <= i < n,
            name@ == buf@.subrange(0, k as int),
        decreases i - k,
    {
        name.push(buf[k]);
        k = k + 1;
        assert(name@ =~= buf@.subrange(0, k as int));
    }
    let mut value: Vec<u8> = Vec::new();
    let mut m: usize = i + 1;
    while m < n
        invariant
            n == buf@.len(),
            i < m <= n,
            value@ == buf@.subrange(i + 1, m as int),
        decreases n - m,
    {
        value.push(buf[m]);
        m = m + 1;
        assert(value@ =~= buf@.subrange(i + 1, m as int));
    }
    Some(Field { name, value })
}

/// Whether two byte strings hold the same bytes.
pub fn same_bytes(a: &[u8], b: &[u8]) -> (r: bool)
    ensures
        r == (a@ == b@),
{
    if a.len() != b.len() {
        return false;
    }
    let mut i: usize = 0;
    while i < a.len()
        invariant
            a@.len() == b@.len(),
            i <= a@.len(),
            forall|j: int| 0 <= j < i ==> a@[j] == b@[j],
        decreases a@.len() - i,
    {
        if a[i] != b[i] {
            return false;
        }
        i = i + 1;
    }
    assert(a@ =~= b@);
    true
}

/// `a` and `b` agree before place `k`, and there `a` ends while `b` goes on, or
/// holds the smaller byte.
pub open spec fn precedes_at(a: Seq<u8>, b: Seq<u8>, k: int) -> bool {
    &&& 0 <= k <= a.len()
    &&& k < b.len()
    &&& forall|j: int| 0 <= j < k ==> a[j] == b[j]
    &&& (k == a.len() || a[k] < b[k])
}

/// `a` stands before `b` in the order of byte strings: byte by byte, a prefix
/// before what it is a prefix of.
pub open spec fn precedes(a: Seq<u8>, b: Seq<u8>) -> bool {
    exists|k: int| precedes_at(a, b, k)
}

/// What stands before another differs from it.
pub proof fn lemma_precedes_differs(a: Seq<u8>, b: Seq<u8>)
    requires
        precedes(a, b),
    ensures
        a != b,
{
    let k = choose|k: int| precedes_at(a, b, k);
    assert(precedes_at(a, b, k));
    if k < a.len() {
        assert(a[k] != b[k]);
    }
}

/// The order of byte strings is transitive.
pub proof fn lemma_precedes_transitive(a: Seq<u8>, b: Seq<u8>, c: Seq<u8>)
    requires
        precedes(a, b),
        precedes(b, c),
    ensures
        precedes(a, c),
{
    let k1 = choose|k: int| precedes_at(a, b, k);
    let k2 = choose|k: int| precedes_at(b, c, k);
    assert(precedes_at(a, b, k1));
    assert(precedes_at(b, c, k2));
    let k = if k1 <= k2 {
        k1
    } else {
        k2
    };
    assert forall|j: int| 0 <= j < k implies a[j] == c[j] by {
        assert(a[j] == b[j]);
        assert(b[j] == c[j]);
    }
    if k1 < k2 {
        assert(b[k1] == c[k1]);
    } else if k1 == k2 {
    } else {
        assert(a[k2] == b[k2]);
    }
    assert(precedes_at(a, c, k));
}

/// How one byte string stands to another in their order.
#[derive(Clone, Copy, Debug, PartialEq, Eq, Structural)]
pub enum Order {
    Before,
    Same,
    After,
}

/// Says how `a` stands to `b` in the order of byte strings.
pub fn order_bytes(a: &[u8], b: &[u8]) -> (r: Order)
    ensures
        r == Order::Before <==> precedes(a@, b@),
        r == Order::Same <==> a@ == b@,
        r == Order::After <==> precedes(b@, a@),
{
    let mut i: usize = 0;
    while i < a.len() && i < b.len() && a[i] == b[i]
        invariant
            i <= a@.len(),
            i <= b@.len(),
            forall|j: int| 0 <= j < i ==> a@[j] == b@[j],
        decreases a@.len() - i,
    {
        i = i + 1;
    }
    let r = if i == a.len() {
        if i == b.len() {
            assert(a@ =~= b@);
            Order::Same
        } else {
            assert(precedes_at(a@, b@, i as int));
            Order::Before
        }
    } else if i == b.len() {
        assert(precedes_at(b@, a@, i as int));
        Order::After
    } else if a[i] < b[i] {
        assert(precedes_at(a@, b@, i as int));
        Order::Before
    } else {
        assert(precedes_at(b@, a@, i as int));
        Order::After
    };
    proof {
        if precedes(a@, b@) {
            lemma_precedes_differs(a@, b@);
            if precedes(b@, a@) {
                lemma_precedes_transitive(a@, b@, a@);
                lemma_precedes_differs(a@, a@);
            }
        }
        if precedes(b@, a@) {
            lemma_precedes_differs(b@, a@);
        }
    }
    r
}

/// Entry `i` of `es` is named `k`.
pub open spec fn named_at(es: Seq<Field>, k: Seq<u8>, i: int) -> bool {
    0 <= i < es.len() && es[i].name@ == k
}

/// No two entries of `es` share a name.
pub open spec fn distinct_names(es: Seq<Field>) -> bool {
    forall|i: int, j: int| 0 <= i < j < es.len() ==> es[i].name@ != es[j].name@
}

/// The mapping that entries with distinct names stand for.
pub open spec fn entries_map(es: Seq<Field>) -> Map<Seq<u8>, Seq<u8>> {
    Map::new(
        |k: Seq<u8>| exists|i: int| named_at(es, k, i),
        |k: Seq<u8>| es[choose|i: int| named_at(es, k, i)].value@,
    )
}

/// The names of `es` ascend in the order of byte strings.
pub open spec fn ascending_names(es: Seq<Field>) -> bool {
    forall|i: int, j: int| 0 <= i < j < es.len() ==> precedes(es[i].name@, es[j].name@)
}

/// Names that ascend differ from each other.
pub proof fn lemma_ascending_distinct(es: Seq<Field>)
    requires
        ascending_names(es),
    ensures
        distinct_names(es),
{
    assert forall|i: int, j: int| 0 <= i < j < es.len() implies es[i].name@ != es[j].name@ by {
        lemma_precedes_differs(es[i].name@, es[j].name@);
    }
}

/// Putting a field under a new name among entries with distinct names adds
/// that name to their mapping, wherever it is put.
pub proof fn lemma_map_with_new_name(before: Seq<Field>, p: int, f: Field)
    requires
        distinct_names(before),
        0 <= p <= before.len(),
        forall|i: int| !named_at(before, f.name@, i),
    ensures
        distinct_names(before.insert(p, f)),
        entries_map(before.insert(p, f)) == entries_map(before).insert(f.name@, f.value@),
        !entries_map(before).contains_key(f.name@),
{
    let after = before.insert(p, f);
    let k0 = f.name@;
    let v0 = f.value@;
    assert forall|c: int| 0 <= c < after.len() implies #[trigger] after[c] == (if c < p {
        before[c]
    } else if c == p {
        f
    } else {
        before[c - 1]
    }) by {}
    assert forall|x: int, y: int| 0 <= x < y < after.len() implies after[x].name@
        != after[y].name@ by {
        let xb = if x < p { x } else { x - 1 };
        let yb = if y < p { y } else { y - 1 };
        if x == p {
            assert(!named_at(before, k0, yb));
        } else if y == p {
            assert(!named_at(before, k0, xb));
        } else {
            assert(after[x] == before[xb]);
            assert(after[y] == before[yb]);
        }
    }
    assert forall|k: Seq<u8>| #[trigger]
        entries_map(after).contains_key(k) == entries_map(before).insert(k0, v0).contains_key(
            k,
        ) by {
        if exists|c: int| named_at(after, k, c) {
            let c = choose|c: int| named_at(after, k, c);
            if c < p {
                assert(named_at(before, k, c));
            } else if c > p {
                assert(named_at(before, k, c - 1));
            }
        }
        if exists|c: int| named_at(before, k, c) {
            let c = choose|c: int| named_at(before, k, c);
            if c < p {
                assert(named_at(after, k, c));
            } else {
                assert(named_at(after, k, c + 1));
            }
        }
        if k == k0 {
            assert(named_at(after, k, p));
        }
    }
    assert forall|k: Seq<u8>| #[trigger]
        entries_map(after).contains_key(k) implies entries_map(after)[k] == entries_map(
        before,
    ).insert(k0, v0)[k] by {
        let c = choose|c: int| named_at(after, k, c);
        assert(named_at(after, k, c));
        if k == k0 {
            if c < p {
                assert(named_at(before, k, c));
            } else if c > p {
                assert(named_at(before, k, c - 1));
            }
            assert(c == p);
        } else {
            let d = choose|d: int| named_at(before, k, d);
            let bc = if c < p { c } else { c - 1 };
            assert(named_at(before, k, bc));
            assert(named_at(before, k, d));
            assert(bc == d);
        }
    }
    assert(entries_map(after) =~= entries_map(before).insert(k0, v0));
}

/// Putting a field in the place of the entry of its name maps that name to
/// the new value and leaves the other names as they were.
pub proof fn lemma_map_with_new_value(before: Seq<Field>, p: int, f: Field)
    requires
        distinct_names(before),
        named_at(before, f.name@, p),
    ensures
        distinct_names(before.update(p, f)),
        entries_map(before.update(p, f)) == entries_map(before).insert(f.name@, f.value@),
        entries_map(before).contains_key(f.name@),
{
    let after = before.update(p, f);
    let k0 = f.name@;
    let v0 = f.value@;
    assert forall|x: int| 0 <= x < after.len() implies #[trigger] after[x].name@
        == before[x].name@ by {}
    assert forall|x: int, y: int| 0 <= x < y < after.len() implies after[x].name@
        != after[y].name@ by {
        assert(after[x].name@ == before[x].name@);
        assert(after[y].name@ == before[y].name@);
    }
    assert forall|k: Seq<u8>| #[trigger]
        entries_map(after).contains_key(k) == entries_map(before).insert(k0, v0).contains_key(
            k,
        ) by {
        if exists|c: int| named_at(after, k, c) {
            let c = choose|c: int| named_at(after, k, c);
            assert(named_at(before, k, c));
        }
        if exists|c: int| named_at(before, k, c) {
            let c = choose|c: int| named_at(before, k, c);
            assert(named_at(after, k, c));
        }
        if k == k0 {
            assert(named_at(after, k, p));
        }
    }
    assert forall|k: Seq<u8>| #[trigger]
        entries_map(after).contains_key(k) implies entries_map(after)[k] == entries_map(
        before,
    ).insert(k0, v0)[k] by {
        let c = choose|c: int| named_at(after, k, c);
        assert(named_at(after, k, c));
        if k == k0 {
            assert(c == p);
        } else {
            let d = choose|d: int| named_at(before, k, d);
            assert(named_at(before, k, c));
            assert(named_at(before, k, d));
            assert(c == d);
        }
    }
    assert(entries_map(after) =~= entries_map(before).insert(k0, v0));
}

/// `Dummy`
pub open spec fn placeholder_text() -> Seq<u8> {
    seq![68u8, 117u8, 109u8, 109u8, 121u8]
}

/// The mapping of the record that stands for an unreadable entry.
pub open spec fn placeholder_map() -> Map<Seq<u8>, Seq<u8>> {
    Map::<Seq<u8>, Seq<u8>>::empty().insert(placeholder_text(), placeholder_text())
}

/// A record of the journal: field names mapped to field values, each name
/// once, kept in the order of the names.
#[derive(Debug)]
pub struct JournalRecord {
    entries: Vec<Field>,
}

impl JournalRecord {
    /// The entries, in the order of their names.
    pub closed spec fn fields(&self) -> Seq<Field> {
        self.entries@
    }

    /// The names ascend, so each occurs once.
    pub open spec fn well_formed(&self) -> bool {
        ascending_names(self.fields())
    }

    /// The record as a mapping from names to values.
    pub open spec fn view(&self) -> Map<Seq<u8>, Seq<u8>> {
        entries_map(self.fields())
    }

    /// The number of entries held.
    pub open spec fn spec_len(&self) -> nat {
        self.fields().len()
    }

    /// A well-formed record holds one entry for each name of its mapping.
    pub proof fn lemma_len(&self)
        requires
            self.well_formed(),
        ensures
            self@.dom().finite(),
            self@.dom().len() == self.spec_len(),
    {
        lemma_ascending_distinct(self.fields());
        lemma_entries_domain(self.fields());
    }

    /// The record that stands for an entry that could not be read: `Dummy`
    /// mapped to `Dummy`.
    pub fn placeholder() -> (r: JournalRecord)
        ensures
            r.well_formed(),
            r@ == placeholder_map(),
            r.spec_len() == 1,
    {
        let mut r = JournalRecord::new();
        let name = vec![68u8, 117u8, 109u8, 109u8, 121u8];
        let value = vec![68u8, 117u8, 109u8, 109u8, 121u8];
        assert(name@ =~= placeholder_text());
        assert(value@ =~= placeholder_text());
        r.insert(name, value);
        r
    }

    /// Entry `i`, counted in the order of the names.
    pub fn entry(&self, i: usize) -> (f: &Field)
        requires
            self.well_formed(),
            i < self.spec_len(),
        ensures
            *f == self.fields()[i as int],
            self@.contains_key(f.name@),
            self@[f.name@] == f.value@,
    {
        proof {
            let es = self.entries@;
            lemma_ascending_distinct(es);
            let k = es[i as int].name@;
            assert(named_at(es, k, i as int));
            let c = choose|c: int| named_at(es, k, c);
            assert(c == i);
        }
        &self.entries[i]
    }

    /// The record without fields.
    pub fn new() -> (r: JournalRecord)
        ensures
            r.well_formed(),
            r@ == Map::<Seq<u8>, Seq<u8>>::empty(),
            r.spec_len() == 0,
    {
        let r = JournalRecord { entries: Vec::new() };
        assert(r@ =~= Map::<Seq<u8>, Seq<u8>>::empty());
        r
    }

    /// The number of fields.
    pub fn len(&self) -> (n: usize)
        ensures
            n == self.spec_len(),
    {
        self.entries.len()
    }

    /// The place of the entry named `name`, if there is one.
    fn position(&self, name: &[u8]) -> (r: Option<usize>)
        ensures
            r matches Some(i) ==> named_at(self.entries@, name@, i as int),
            r.is_none() ==> forall|i: int| !named_at(self.entries@, name@, i),
    {
        let mut i: usize = 0;
        while i < self.entries.len()
            invariant
                i <= self.entries@.len(),
                forall|j: int| 0 <= j < i ==> self.entries@[j].name@ != name@,
            decreases self.entries@.len() - i,
        {
            if same_bytes(self.entries[i].name.as_slice(), name) {
                return Some(i);
            }
            i = i + 1;
        }
        None
    }

    /// The value of the field named `name`.
    pub fn get(&self, name: &[u8]) -> (r: Option<&Vec<u8>>)
        requires
            self.well_formed(),
        ensures
            r.is_some() == self@.contains_key(name@),
            r matches Some(v) ==> v@ == self@[name@],
    {
        match self.position(name) {
            Some(i) => {
                proof {
                    lemma_ascending_distinct(self.entries@);
                    let c = choose|c: int| named_at(self.entries@, name@, c);
                    assert(c == i);
                }
                Some(&self.entries[i].value)
            },
            None => None,
        }
    }

    /// Maps `name` to `value`; an earlier value of that name is replaced. The
    /// entries stay in the order of their names.
    pub fn insert(&mut self, name: Vec<u8>, value: Vec<u8>)
        requires
            old(self).well_formed(),
        ensures
            final(self).well_formed(),
            final(self)@ == old(self)@.insert(name@, value@),
            final(self).spec_len() == old(self).spec_len() + (if old(self)@.contains_key(name@) {
                0nat
            } else {
                1nat
            }),
    {
        let ghost before = self.entries@;
        let ghost k0 = name@;
        proof {
            lemma_ascending_distinct(before);
        }
        let mut i: usize = 0;
        while i < self.entries.len()
            invariant
                self.entries@ == before,
                old(self).entries@ == before,
                name@ == k0,
                i <= before.len(),
                ascending_names(before),
                distinct_names(before),
                forall|j: int| 0 <= j < i ==> precedes(#[trigger] before[j].name@, k0),
            decreases before.len() - i,
        {
            match order_bytes(self.entries[i].name.as_slice(), name.as_slice()) {
                Order::Before => {
                    i = i + 1;
                },
                Order::Same => {
                    let f = Field { name, value };
                    proof {
                        lemma_map_with_new_value(before, i as int, f);
                        let after = before.update(i as int, f);
                        assert forall|x: int, y: int| 0 <= x < y < after.len() implies precedes(
                            after[x].name@,
                            after[y].name@,
                        ) by {
                            assert(after[x].name@ == before[x].name@);
                            assert(after[y].name@ == before[y].name@);
                        }
                    }
                    self.entries.set(i, f);
                    return ;
                },
                Order::After => {
                    let f = Field { name, value };
                    proof {
                        lemma_new_name_in_order(before, i as int, f);
                    }
                    self.entries.insert(i, f);
                    return ;
                },
            }
        }
        let f = Field { name, value };
        proof {
            lemma_new_name_in_order(before, i as int, f);
            assert(before.insert(i as int, f) =~= before.push(f));
        }
        self.entries.push(f);
    }
}

/// A field put where the names before it precede its name, and its name
/// precedes the next, keeps the names ascending and adds its name to the mapping.
pub proof fn lemma_new_name_in_order(before: Seq<Field>, p: int, f: Field)
    requires
        ascending_names(before),
        0 <= p <= before.len(),
        forall|j: int| 0 <= j < p ==> precedes(#[trigger] before[j].name@, f.name@),
        p < before.len() ==> precedes(f.name@, before[p].name@),
    ensures
        ascending_names(before.insert(p, f)),
        entries_map(before.insert(p, f)) == entries_map(before).insert(f.name@, f.value@),
        !entries_map(before).contains_key(f.name@),
{
    let after = before.insert(p, f);
    lemma_ascending_distinct(before);
    assert forall|j: int| p <= j < before.len() implies precedes(
        f.name@,
        #[trigger] before[j].name@,
    ) by {
        if j > p {
            lemma_precedes_transitive(f.name@, before[p].name@, before[j].name@);
        }
    }
    assert forall|i: int| !named_at(before, f.name@, i) by {
        if named_at(before, f.name@, i) {
            if i < p {
                lemma_precedes_differs(before[i].name@, f.name@);
            } else {
                lemma_precedes_differs(f.name@, before[i].name@);
            }
        }
    }
    lemma_map_with_new_name(before, p, f);
    assert forall|x: int, y: int| 0 <= x < y < after.len() implies precedes(
        after[x].name@,
        after[y].name@,
    ) by {
        if x == p {
            assert(after[y] == before[y - 1]);
        } else if y == p {
            assert(after[x] == before[x]);
        } else {
            let xb = if x < p { x } else { x - 1 };
            let yb = if y < p { y } else { y - 1 };
            assert(after[x] == before[xb]);
            assert(after[y] == before[yb]);
        }
    }
}

/// The names of entries with distinct names are as many as the entries.
pub proof fn lemma_entries_domain(es: Seq<Field>)
    requires
        distinct_names(es),
    ensures
        entries_map(es).dom().finite(),
        entries_map(es).dom().len() == es.len(),
    decreases es.len(),
{
    if es.len() == 0 {
        assert(entries_map(es).dom() =~= Set::<Seq<u8>>::empty());
    } else {
        let head = es.drop_last();
        let last = es.last();
        lemma_entries_domain(head);
        assert forall|k: Seq<u8>| #[trigger]
            entries_map(es).dom().contains(k) == entries_map(head).dom().insert(
                last.name@,
            ).contains(k) by {
            if exists|c: int| named_at(es, k, c) {
                let c = choose|c: int| named_at(es, k, c);
                if c < head.len() {
                    assert(named_at(head, k, c));
                }
            }
            if exists|c: int| named_at(head, k, c) {
                let c = choose|c: int| named_at(head, k, c);
                assert(named_at(es, k, c));
            }
            if k == last.name@ {
                assert(named_at(es, k, es.len() - 1));
            }
        }
        assert(entries_map(es).dom() =~= entries_map(head).dom().insert(last.name@));
        if entries_map(head).dom().contains(last.name@) {
            let c = choose|c: int| named_at(head, last.name@, c);
            assert(named_at(head, last.name@, c));
            assert(es[c].name@ == es[es.len() - 1].name@);
        }
    }
}

/// The byte strings that a list of buffers holds.
pub open spec fn buffers(bufs: Seq<Vec<u8>>) -> Seq<Seq<u8>> {
    Seq::new(bufs.len(), |i: int| bufs[i]@)
}

/// Every buffer holds a separator.
pub open spec fn all_separated(bufs: Seq<Seq<u8>>) -> bool {
    forall|i: int| 0 <= i < bufs.len() ==> has_separator(#[trigger] bufs[i])
}

/// Buffer `i` is the first without a separator.
pub open spec fn first_malformed(bufs: Seq<Seq<u8>>, i: int) -> bool {
    &&& 0 <= i < bufs.len()
    &&& !has_separator(bufs[i])
    &&& forall|j: int| 0 <= j < i ==> has_separator(#[trigger] bufs[j])
}

/// The mapping that a list of field buffers decodes to: each buffer maps its
/// name to its value, and of two buffers with one name the later one stays.
pub open spec fn decoded(bufs: Seq<Seq<u8>>) -> Map<Seq<u8>, Seq<u8>>
    decreases bufs.len(),
{
    if bufs.len() == 0 {
        Map::empty()
    } else {
        decoded(bufs.drop_last()).insert(field_name(bufs.last()), field_value(bufs.last()))
    }
}

/// Decodes the field buffers of one entry into a record. A buffer without a
/// separator fails the whole record, with the place of the first such buffer.
pub fn decode_fields(bufs: &Vec<Vec<u8>>) -> (r: Result<JournalRecord, usize>)
    ensures
        r.is_ok() == all_separated(buffers(bufs@)),
        r matches Ok(rec) ==> rec.well_formed() && rec@ == decoded(buffers(bufs@)),
        r matches Err(i) ==> first_malformed(buffers(bufs@), i as int),
{
    let ghost all = buffers(bufs@);
    let mut rec = JournalRecord::new();
    let mut i: usize = 0;
    assert(all.take(0) =~= Seq::<Seq<u8>>::empty());
    while i < bufs.len()
        invariant
            i <= bufs@.len(),
            all == buffers(bufs@),
            rec.well_formed(),
            rec@ == decoded(all.take(i as int)),
            forall|j: int| 0 <= j < i ==> has_separator(#[trigger] all[j]),
        decreases bufs@.len() - i,
    {
        assert(all[i as int] == bufs@[i as int]@);
        match split_field(bufs[i].as_slice()) {
            Some(f) => {
                rec.insert(f.name, f.value);
                proof {
                    let next = all.take(i + 1);
                    assert(next.drop_last() =~= all.take(i as int));
                    assert(next.last() == all[i as int]);
                }
            },
            None => {
                return Err(i);
            },
        }
        i = i + 1;
    }
    assert(all.take(i as int) =~= all);
    Ok(rec)
}

/// Buffers that each hold a separator, with names that differ from each other,
/// decode to as many entries as there are buffers, and each name is mapped to
/// what stands behind the first separator of its buffer.
pub proof fn lemma_decoded_entries(bufs: Seq<Seq<u8>>)
    requires
        all_separated(bufs),
        forall|i: int, j: int|
            0 <= i < j < bufs.len() ==> field_name(bufs[i]) != field_name(bufs[j]),
    ensures
        decoded(bufs).dom().finite(),
        decoded(bufs).dom().len() == bufs.len(),
        forall|i: int|
            0 <= i < bufs.len() ==> decoded(bufs).contains_key(#[trigger] field_name(bufs[i]))
                && decoded(bufs)[field_name(bufs[i])] == field_value(bufs[i]),
        forall|k: Seq<u8>| #[trigger]
            decoded(bufs).contains_key(k) ==> exists|i: int|
                0 <= i < bufs.len() && field_name(bufs[i]) == k,
    decreases bufs.len(),
{
    if bufs.len() > 0 {
        let head = bufs.drop_last();
        let last = bufs.last();
        assert forall|i: int| 0 <= i < head.len() implies has_separator(#[trigger] head[i]) by {
            assert(head[i] == bufs[i]);
        }
        lemma_decoded_entries(head);
        if decoded(head).contains_key(field_name(last)) {
            let c = choose|c: int| 0 <= c < head.len() && field_name(head[c]) == field_name(last);
            assert(head[c] == bufs[c]);
            assert(field_name(bufs[c]) != field_name(bufs[bufs.len() - 1]));
        }
        assert forall|i: int| 0 <= i < bufs.len() implies decoded(bufs).contains_key(
            #[trigger] field_name(bufs[i]),
        ) && decoded(bufs)[field_name(bufs[i])] == field_value(bufs[i]) by {
            if i < head.len() {
                assert(head[i] == bufs[i]);
                assert(decoded(head).contains_key(field_name(head[i])));
                assert(field_name(bufs[i]) != field_name(bufs[bufs.len() - 1]));
            }
        }
        assert forall|k: Seq<u8>| #[trigger] decoded(bufs).contains_key(k) implies exists|i: int|
            0 <= i < bufs.len() && field_name(bufs[i]) == k by {
            if k == field_name(last) {
                assert(field_name(bufs[bufs.len() - 1]) == k);
            } else {
                assert(decoded(head).contains_key(k));
                let c = choose|c: int| 0 <= c < head.len() && field_name(head[c]) == k;
                assert(head[c] == bufs[c]);
            }
        }
    }
}

} // verus!
