use vstd::prelude::*;
use crate::convert::{ToSql, ToSqlError, to_sql_view};
use crate::table_info::{WithoutIdTableInfo, without_id};
use crate::text::{all_ascii, ascii_lowercase, lemma_ascii_lowercase_keeps, no_ascii_upper, spec_lowercase, str_to_lowercase, str_views};
use crate::value::{SqlData, SqlValue};

verus! {

/// What a bound value turned into: the SQL value, or the message of the failed conversion.
pub type Bound = Result<SqlValue, ToSqlError>;

pub type BoundView = Result<SqlData, Seq<char>>;

/// A copy of a bound value.
pub fn copy_bound(b: &Bound) -> (r: Bound)
    ensures
        to_sql_view(r) == to_sql_view(*b),
{
    match b {
        Ok(v) => Ok(v.duplicate()),
        Err(e) => Err(ToSqlError { message: e.message.clone() }),
    }
}

/// The SQL value handed to SQLite for a bound value: a failed conversion is bound as NULL.
pub open spec fn value_or_null(b: BoundView) -> SqlData {
    match b {
        Ok(v) => v,
        Err(_) => SqlData::Null,
    }
}

fn bound_to_value(b: &Bound) -> (r: SqlValue)
    ensures
        r@ == value_or_null(to_sql_view(*b)),
{
    match b {
        Ok(v) => v.duplicate(),
        Err(_) => SqlValue::Null,
    }
}

// ---------------------------------------------------------------------------
// Parameter holders

/// A list of SQL parameters, owned, handed to a statement as a slice.
pub struct StaticParamsHolder {
    params: Vec<SqlValue>,
}

impl View for StaticParamsHolder {
    type V = Seq<SqlData>;

    closed spec fn view(&self) -> Seq<SqlData> {
        self.params@.map_values(|v: SqlValue| v@)
    }
}

impl StaticParamsHolder {
    /// Holds the given parameters.
    pub fn new(params: Vec<SqlValue>) -> (r: Self)
        ensures
            r@ == params@.map_values(|v: SqlValue| v@),
    {
        StaticParamsHolder { params }
    }

    /// The parameters as a slice.
    pub fn as_slice(&self) -> (r: &[SqlValue])
        ensures
            r@.map_values(|v: SqlValue| v@) == self@,
    {
        self.params.as_slice()
    }

    /// The parameters.
    pub fn params(&self) -> (r: &Vec<SqlValue>)
        ensures
            r@.map_values(|v: SqlValue| v@) == self@,
    {
        &self.params
    }

    /// The number of parameters.
    pub fn len(&self) -> (r: usize)
        ensures
            r == self@.len(),
    {
        self.params.len()
    }
}

/// Copies the parameters of a holder into a fresh list.
pub trait StaticParamsExt {
    spec fn spec_params(&self) -> Seq<SqlData>;

    fn to_boxed_vec(&self) -> (r: Vec<SqlValue>)
        ensures
            r@.map_values(|v: SqlValue| v@) == self.spec_params(),
    ;
}

impl StaticParamsExt for StaticParamsHolder {
    open spec fn spec_params(&self) -> Seq<SqlData> {
        self@
    }

    fn to_boxed_vec(&self) -> (r: Vec<SqlValue>) {
        let mut out: Vec<SqlValue> = Vec::new();
        let n = self.params.len();
        for i in 0..n
            invariant
                n == self.params@.len(),
                out@.len() == i,
                forall|k: int| 0 <= k < i ==> (#[trigger] out@[k])@ == self.params@[k]@,
        {
            out.push(self.params[i].duplicate());
        }
        assert(out@.map_values(|v: SqlValue| v@) =~= self@);
        out
    }
}

/// Values that can be copied into a fresh SQL value.
pub trait ToSqlClone {
    spec fn spec_value(&self) -> SqlData;

    fn clone_box(&self) -> (r: Box<SqlValue>)
        ensures
            r@ == self.spec_value(),
    ;
}

impl ToSqlClone for SqlValue {
    open spec fn spec_value(&self) -> SqlData {
        self@
    }

    fn clone_box(&self) -> (r: Box<SqlValue>) {
        Box::new(self.duplicate())
    }
}

/// A SQL statement together with its parameters.
#[derive(Debug)]
pub struct SqlQuery {
    pub query: String,
    pub params: Vec<SqlValue>,
}

impl SqlQuery {
    /// A query with no parameters.
    pub fn new(query: &str) -> (r: Self)
        ensures
            r.query@ == query@,
            r.params@.len() == 0,
    {
        SqlQuery { query: query.to_owned(), params: Vec::new() }
    }
}

// ---------------------------------------------------------------------------
// Field values of a row without its id

/// The values of some fields of a row of table `T`, keyed by lowercase field name; used to
/// insert rows whose `id` the database assigns.
pub struct WithoutId<T> {
    entries: Vec<(String, Bound)>,
    _marker: core::marker::PhantomData<T>,
}

pub open spec fn entry_view(e: (String, Bound)) -> (Seq<char>, BoundView) {
    (e.0@, to_sql_view(e.1))
}

/// The value stored under `key`, if any.
pub open spec fn lookup(entries: Seq<(Seq<char>, BoundView)>, key: Seq<char>) -> Option<BoundView> {
    if exists|i: int| 0 <= i < entries.len() && (#[trigger] entries[i]).0 == key {
        Some(entries[choose|i: int| 0 <= i < entries.len() && (#[trigger] entries[i]).0 == key].1)
    } else {
        None
    }
}

/// Whether no key occurs twice.
pub open spec fn keys_unique(entries: Seq<(Seq<char>, BoundView)>) -> bool {
    forall|i: int, j: int|
        0 <= i < entries.len() && 0 <= j < entries.len() && i != j ==> (#[trigger] entries[i]).0
            != (#[trigger] entries[j]).0
}

/// The entries after storing `v` under `key`: in place when the key is there, at the end
/// otherwise.
pub open spec fn store(entries: Seq<(Seq<char>, BoundView)>, key: Seq<char>, v: BoundView) -> Seq<(Seq<char>, BoundView)> {
    if exists|i: int| 0 <= i < entries.len() && (#[trigger] entries[i]).0 == key {
        entries.update(choose|i: int| 0 <= i < entries.len() && (#[trigger] entries[i]).0 == key, (key, v))
    } else {
        entries.push((key, v))
    }
}

/// The values of the names that have one, in the order of `names`.
pub open spec fn values_of(entries: Seq<(Seq<char>, BoundView)>, names: Seq<Seq<char>>) -> Seq<BoundView>
    decreases names.len(),
{
    if names.len() == 0 {
        Seq::empty()
    } else {
        match lookup(entries, names.last()) {
            Some(v) => values_of(entries, names.drop_last()).push(v),
            None => values_of(entries, names.drop_last()),
        }
    }
}

/// The names that have a value, in the order given (repeats kept).
pub open spec fn kept_names(entries: Seq<(Seq<char>, BoundView)>, names: Seq<Seq<char>>) -> Seq<Seq<char>> {
    names.filter(|n: Seq<char>| lookup(entries, n) is Some)
}

/// The values of the names, looked up exactly, are the names that have one, in the order
/// given, each with its value: names without a value are dropped, repeats repeated.
pub proof fn lemma_values_of_kept_names(entries: Seq<(Seq<char>, BoundView)>, names: Seq<Seq<char>>)
    ensures
        values_of(entries, names) == kept_names(entries, names).map_values(|n: Seq<char>| lookup(entries, n)->0),
        kept_names(entries, names).len() <= names.len(),
    decreases names.len(),
{
    reveal(Seq::filter);
    if names.len() > 0 {
        lemma_values_of_kept_names(entries, names.drop_last());
        let k = kept_names(entries, names.drop_last());
        let last = names.last();
        if lookup(entries, last) is Some {
            assert(kept_names(entries, names) == k.push(last));
            assert(k.push(last).map_values(|n: Seq<char>| lookup(entries, n)->0) =~= k.map_values(
                |n: Seq<char>| lookup(entries, n)->0,
            ).push(lookup(entries, last)->0));
        } else {
            assert(kept_names(entries, names) == k);
        }
    }
}

/// For each name, the value stored under its lowercase form, NULL when there is none.
pub open spec fn insert_values(entries: Seq<(Seq<char>, BoundView)>, names: Seq<Seq<char>>) -> Seq<BoundView> {
    Seq::new(
        names.len(),
        |i: int|
            match lookup(entries, spec_lowercase(names[i])) {
                Some(v) => v,
                None => Ok(SqlData::Null),
            },
    )
}

proof fn lemma_lookup_at(e: Seq<(Seq<char>, BoundView)>, i: int)
    requires
        keys_unique(e),
        0 <= i < e.len(),
    ensures
        lookup(e, e[i].0) == Some(e[i].1),
{
    let j = choose|j: int| 0 <= j < e.len() && (#[trigger] e[j]).0 == e[i].0;
    assert(j == i);
}

/// Read after write on stored fields: once `v` is stored under `key`, reading `key` gives
/// `v`, reading any other key gives what it gave before, and still no key occurs twice.
pub proof fn lemma_store_then_lookup(
    e: Seq<(Seq<char>, BoundView)>,
    key: Seq<char>,
    v: BoundView,
    other: Seq<char>,
)
    requires
        keys_unique(e),
    ensures
        keys_unique(store(e, key, v)),
        lookup(store(e, key, v), key) == Some(v),
        other != key ==> lookup(store(e, key, v), other) == lookup(e, other),
{
    let s = store(e, key, v);
    if exists|i: int| 0 <= i < e.len() && (#[trigger] e[i]).0 == key {
        let p = choose|i: int| 0 <= i < e.len() && (#[trigger] e[i]).0 == key;
        assert(s == e.update(p, (key, v)));
        assert(keys_unique(s)) by {
            assert forall|i: int, j: int|
                0 <= i < s.len() && 0 <= j < s.len() && i != j implies (#[trigger] s[i]).0 != (#[trigger] s[j]).0 by {
                if i == p {
                    assert(e[j].0 != e[p].0);
                } else if j == p {
                    assert(e[i].0 != e[p].0);
                } else {
                    assert(e[i].0 != e[j].0);
                }
            }
        }
        lemma_lookup_at(s, p);
        if other != key {
            if exists|i: int| 0 <= i < e.len() && (#[trigger] e[i]).0 == other {
                let q = choose|i: int| 0 <= i < e.len() && (#[trigger] e[i]).0 == other;
                lemma_lookup_at(e, q);
                assert(s[q] == e[q]);
                lemma_lookup_at(s, q);
            } else {
                assert forall|i: int| 0 <= i < s.len() implies (#[trigger] s[i]).0 != other by {
                    if i != p {
                        assert(s[i] == e[i]);
                    }
                }
            }
        }
    } else {
        assert(s == e.push((key, v)));
        assert(keys_unique(s)) by {
            assert forall|i: int, j: int|
                0 <= i < s.len() && 0 <= j < s.len() && i != j implies (#[trigger] s[i]).0 != (#[trigger] s[j]).0 by {
                if i == e.len() {
                    assert(e[j].0 != key);
                } else if j == e.len() {
                    assert(e[i].0 != key);
                } else {
                    assert(e[i].0 != e[j].0);
                }
            }
        }
        lemma_lookup_at(s, e.len() as int);
        if other != key {
            if exists|i: int| 0 <= i < e.len() && (#[trigger] e[i]).0 == other {
                let q = choose|i: int| 0 <= i < e.len() && (#[trigger] e[i]).0 == other;
                lemma_lookup_at(e, q);
                assert(s[q] == e[q]);
                lemma_lookup_at(s, q);
            } else {
                assert forall|i: int| 0 <= i < s.len() implies (#[trigger] s[i]).0 != other by {
                    if i < e.len() {
                        assert(s[i] == e[i]);
                    }
                }
            }
        }
    }
}

impl<T> WithoutId<T> {
    /// The stored (key, value) pairs, in the order the keys were first set.
    pub closed spec fn entries(&self) -> Seq<(Seq<char>, BoundView)> {
        self.entries@.map_values(|e: (String, Bound)| entry_view(e))
    }

    #[verifier::type_invariant]
    closed spec fn inv(&self) -> bool {
        keys_unique(self.entries())
    }

    /// An empty set of field values.
    pub fn new() -> (r: Self)
        ensures
            r.entries().len() == 0,
    {
        WithoutId { entries: Vec::new(), _marker: core::marker::PhantomData }
    }

    fn position(&self, key: &String) -> (r: Option<usize>)
        ensures
            match r {
                Some(i) => i < self.entries().len() && self.entries()[i as int].0 == key@,
                None => forall|i: int|
                    0 <= i < self.entries().len() ==> (#[trigger] self.entries()[i]).0 != key@,
            },
    {
        let n = self.entries.len();
        for i in 0..n
            invariant
                n == self.entries@.len(),
                forall|k: int| 0 <= k < i ==> (#[trigger] self.entries()[k]).0 != key@,
        {
            if self.entries[i].0 == *key {
                return Some(i);
            }
        }
        None
    }

    /// Sets `field` (stored under its lowercase form) to the SQL form of `value`.
    pub fn set<V: ToSql>(&mut self, field: &str, value: V) -> (r: &mut Self)
        ensures
            r.entries() == store(
                old(self).entries(),
                spec_lowercase(field@),
                value.spec_to_sql(),
            ),
            *final(r) == *final(self),
            keys_unique(old(self).entries()),
    {
        let bound = value.to_sql();
        self.set_bound(field, bound);
        self
    }

    /// Sets `field` (stored under its lowercase form) to a value already in SQL form.
    pub fn set_bound(&mut self, field: &str, bound: Bound)
        ensures
            final(self).entries() == store(old(self).entries(), spec_lowercase(field@), to_sql_view(bound)),
            keys_unique(old(self).entries()),
            all_ascii(field@) ==> spec_lowercase(field@) == ascii_lowercase(field@),
    {
        proof {
            use_type_invariant(&*self);
        }
        let key = str_to_lowercase(field);
        let ghost old_entries = self.entries();
        let ghost v = to_sql_view(bound);
        match self.position(&key) {
            Some(i) => {
                proof {
                    let j = choose|j: int| 0 <= j < old_entries.len() && (#[trigger] old_entries[j]).0 == key@;
                    assert(old_entries[i as int].0 == key@);
                    assert(j == i);
                }
                let mut entries: Vec<(String, Bound)> = Vec::new();
                core::mem::swap(&mut entries, &mut self.entries);
                entries.set(i, (key, bound));
                assert(entries@.map_values(|e: (String, Bound)| entry_view(e)) =~= old_entries.update(i as int, (key@, v)));
                self.entries = entries;
            },
            None => {
                let mut entries: Vec<(String, Bound)> = Vec::new();
                core::mem::swap(&mut entries, &mut self.entries);
                entries.push((key, bound));
                assert(entries@.map_values(|e: (String, Bound)| entry_view(e)) =~= old_entries.push((key@, v)));
                self.entries = entries;
            },
        }
    }



    /// The stored values of the given names, in that order; names are compared exactly and
    /// those without a value are skipped.
    pub fn to_params_ordered(&self, field_names: &[String]) -> (r: Vec<&Bound>)
        ensures
            r@.map_values(|b: &Bound| to_sql_view(*b)) == values_of(
                self.entries(),
                field_names@.map_values(|s: String| s@),
            ),
    {
        let ghost names = field_names@.map_values(|s: String| s@);
        let mut out: Vec<&Bound> = Vec::new();
        let n = field_names.len();
        for i in 0..n
            invariant
                n == field_names@.len(),
                names == field_names@.map_values(|s: String| s@),
                out@.map_values(|b: &Bound| to_sql_view(*b)) == values_of(
                    self.entries(),
                    names.take(i as int),
                ),
        {
            assert(names.take(i + 1).drop_last() == names.take(i as int));
            assert(names.take(i + 1).last() == field_names@[i as int]@);
            match self.position(&field_names[i]) {
                Some(p) => {
                    proof {
                        use_type_invariant(self);
                        lemma_lookup_at(self.entries(), p as int);
                    }
                    let ghost before = out@;
                    out.push(&self.entries[p].1);
                    assert(out@.map_values(|b: &Bound| to_sql_view(*b)) =~= before.map_values(
                        |b: &Bound| to_sql_view(*b),
                    ).push(to_sql_view(self.entries@[p as int].1)));
                },
                None => {},
            }
        }
        assert(names.take(n as int) == names);
        out
    }

    /// All stored values, in the order of `field_names()`.
    pub fn to_params(&self) -> (r: Vec<&Bound>)
        ensures
            r@.map_values(|b: &Bound| to_sql_view(*b)) == self.entries().map_values(
                |e: (Seq<char>, BoundView)| e.1,
            ),
    {
        let mut out: Vec<&Bound> = Vec::new();
        let n = self.entries.len();
        for i in 0..n
            invariant
                n == self.entries@.len(),
                out@.len() == i,
                forall|k: int| 0 <= k < i ==> to_sql_view(*(#[trigger] out@[k])) == self.entries()[k].1,
        {
            out.push(&self.entries[i].1);
        }
        assert(out@.map_values(|b: &Bound| to_sql_view(*b)) =~= self.entries().map_values(
            |e: (Seq<char>, BoundView)| e.1,
        ));
        out
    }

    /// The names of the stored fields, each once.
    pub fn field_names(&self) -> (r: Vec<String>)
        ensures
            r@.map_values(|s: String| s@) == self.entries().map_values(
                |e: (Seq<char>, BoundView)| e.0,
            ),
            forall|i: int, j: int| 0 <= i < r@.len() && 0 <= j < r@.len() && i != j ==> (#[trigger] r@[i])@ != (#[trigger] r@[j])@,
    {
        proof {
            use_type_invariant(self);
        }
        let mut out: Vec<String> = Vec::new();
        let n = self.entries.len();
        for i in 0..n
            invariant
                n == self.entries@.len(),
                out@.len() == i,
                forall|k: int| 0 <= k < i ==> (#[trigger] out@[k])@ == self.entries()[k].0,
        {
            out.push(self.entries[i].0.clone());
        }
        assert(out@.map_values(|s: String| s@) =~= self.entries().map_values(
            |e: (Seq<char>, BoundView)| e.0,
        ));
        out
    }

    /// The value stored for `field_name` (looked up by its lowercase form).
    pub fn get_field(&self, field_name: &str) -> (r: Option<&Bound>)
        ensures
            match r {
                Some(b) => lookup(self.entries(), spec_lowercase(field_name@)) == Some(
                    to_sql_view(*b),
                ),
                None => lookup(self.entries(), spec_lowercase(field_name@)) is None,
            },
    {
        let key = str_to_lowercase(field_name);
        match self.position(&key) {
            Some(p) => {
                proof {
                    use_type_invariant(self);
                    lemma_lookup_at(self.entries(), p as int);
                }
                Some(&self.entries[p].1)
            },
            None => None,
        }
    }

    /// One value per non-`id` field of `M`, in field order, looked up by the field's lowercase
    /// name; a field without a value gets NULL.
    pub fn params_for_insert<M: WithoutIdTableInfo>(&self) -> (r: Vec<Bound>)
        ensures
            r@.map_values(|b: Bound| to_sql_view(b)) == insert_values(
                self.entries(),
                without_id(M::spec_field_names()),
            ),
    {
        let names = M::non_id_field_names();
        let ghost views = str_views(names@);
        let mut out: Vec<Bound> = Vec::new();
        let n = names.len();
        for i in 0..n
            invariant
                n == names@.len(),
                views == str_views(names@),
                views == without_id(M::spec_field_names()),
                out@.len() == i,
                forall|k: int|
                    0 <= k < i ==> to_sql_view(#[trigger] out@[k]) == insert_values(
                        self.entries(),
                        views,
                    )[k],
        {
            let key = str_to_lowercase(names[i]);
            match self.position(&key) {
                Some(p) => {
                    proof {
                        use_type_invariant(self);
                        lemma_lookup_at(self.entries(), p as int);
                    }
                    out.push(copy_bound(&self.entries[p].1));
                },
                None => {
                    out.push(Ok(SqlValue::Null));
                },
            }
        }
        assert(out@.map_values(|b: Bound| to_sql_view(b)) =~= insert_values(self.entries(), views));
        out
    }

    /// The parameters for inserting a row of `M`: one per non-`id` field, in field order,
    /// looked up by the field's lowercase name; a missing field or a failed conversion is NULL.
    pub fn create_static_params_for_insert<M: WithoutIdTableInfo>(&self) -> (r: StaticParamsHolder)
        ensures
            r@ == insert_values(self.entries(), without_id(M::spec_field_names())).map_values(
                |b: BoundView| value_or_null(b),
            ),
    {
        let names = M::non_id_field_names();
        let ghost views = str_views(names@);
        let ghost want = insert_values(self.entries(), views).map_values(|b: BoundView| value_or_null(b));
        let mut out: Vec<SqlValue> = Vec::new();
        let n = names.len();
        for i in 0..n
            invariant
                n == names@.len(),
                views == str_views(names@),
                views == without_id(M::spec_field_names()),
                want == insert_values(self.entries(), views).map_values(|b: BoundView| value_or_null(b)),
                out@.len() == i,
                forall|k: int| 0 <= k < i ==> (#[trigger] out@[k])@ == want[k],
        {
            let key = str_to_lowercase(names[i]);
            match self.position(&key) {
                Some(p) => {
                    proof {
                        use_type_invariant(self);
                        lemma_lookup_at(self.entries(), p as int);
                    }
                    out.push(bound_to_value(&self.entries[p].1));
                },
                None => {
                    out.push(SqlValue::Null);
                },
            }
        }
        let r = StaticParamsHolder::new(out);
        assert(r@ =~= want);
        r
    }

    /// The parameters for the given fields only, in that order: names are compared exactly,
    /// fields without a value are skipped, and a failed conversion is NULL.
    pub fn create_static_params_for_fields(&self, provided_fields: &[String]) -> (r: StaticParamsHolder)
        ensures
            r@ == values_of(self.entries(), provided_fields@.map_values(|s: String| s@)).map_values(
                |b: BoundView| value_or_null(b),
            ),
    {
        let ghost names = provided_fields@.map_values(|s: String| s@);
        let mut out: Vec<SqlValue> = Vec::new();
        let n = provided_fields.len();
        for i in 0..n
            invariant
                n == provided_fields@.len(),
                names == provided_fields@.map_values(|s: String| s@),
                out@.map_values(|v: SqlValue| v@) == values_of(self.entries(), names.take(i as int)).map_values(
                    |b: BoundView| value_or_null(b),
                ),
        {
            assert(names.take(i + 1).drop_last() == names.take(i as int));
            assert(names.take(i + 1).last() == provided_fields@[i as int]@);
            match self.position(&provided_fields[i]) {
                Some(p) => {
                    proof {
                        use_type_invariant(self);
                        lemma_lookup_at(self.entries(), p as int);
                    }
                    let ghost before = out@;
                    let v = bound_to_value(&self.entries[p].1);
                    out.push(v);
                    assert(out@.map_values(|v: SqlValue| v@) =~= before.map_values(|v: SqlValue| v@).push(v@));
                },
                None => {},
            }
        }
        assert(names.take(n as int) == names);
        StaticParamsHolder::new(out)
    }

    /// A copy with the same field names, every value NULL.
    pub fn clone_with_nulls(&self) -> (r: Self)
        ensures
            r.entries() == self.entries().map_values(
                |e: (Seq<char>, BoundView)| (e.0, Ok::<SqlData, Seq<char>>(SqlData::Null)),
            ),
    {
        proof {
            use_type_invariant(self);
        }
        let mut out: Vec<(String, Bound)> = Vec::new();
        let n = self.entries.len();
        for i in 0..n
            invariant
                n == self.entries@.len(),
                out@.len() == i,
                forall|k: int| 0 <= k < i ==> entry_view(#[trigger] out@[k]) == (self.entries()[k].0, Ok::<SqlData, Seq<char>>(SqlData::Null)),
        {
            out.push((self.entries[i].0.clone(), Ok(SqlValue::Null)));
        }
        let ghost want = self.entries().map_values(
            |e: (Seq<char>, BoundView)| (e.0, Ok::<SqlData, Seq<char>>(SqlData::Null)),
        );
        assert(out@.map_values(|e: (String, Bound)| entry_view(e)) =~= want);
        assert(keys_unique(want)) by {
            assert(keys_unique(self.entries()));
        }
        WithoutId { entries: out, _marker: core::marker::PhantomData }
    }
}

/// The entries after setting each field in turn, under its lowercase name.
pub open spec fn stored_fields(fields: Seq<(Seq<char>, BoundView)>) -> Seq<(Seq<char>, BoundView)>
    decreases fields.len(),
{
    if fields.len() == 0 {
        Seq::empty()
    } else {
        store(stored_fields(fields.drop_last()), spec_lowercase(fields.last().0), fields.last().1)
    }
}

/// The parameters that `Model { field: value, .. }` gives, as written: each field is set,
/// under its lowercase name, to its value in SQL form; the parameters are then the values
/// of the fields looked up by their names as written, in order (a name with no value is
/// skipped, a failed conversion is NULL).
pub fn sql_params<T>(fields: Vec<(String, Bound)>) -> (r: StaticParamsHolder)
    ensures
        r@ == values_of(
            stored_fields(fields@.map_values(|f: (String, Bound)| entry_view(f))),
            fields@.map_values(|f: (String, Bound)| f.0@),
        ).map_values(|b: BoundView| value_or_null(b)),
        plain_lowercase_names(fields@.map_values(|f: (String, Bound)| entry_view(f))) ==> r@ == fields@.map_values(
            |f: (String, Bound)| value_or_null(to_sql_view(f.1)),
        ),
        lowercase_names(fields@.map_values(|f: (String, Bound)| entry_view(f))) ==> r@ == fields@.map_values(
            |f: (String, Bound)| value_or_null(to_sql_view(f.1)),
        ),
{
    let ghost fv = fields@.map_values(|f: (String, Bound)| entry_view(f));
    let mut result: WithoutId<T> = WithoutId::new();
    let mut names: Vec<String> = Vec::new();
    let n = fields.len();
    for i in 0..n
        invariant
            n == fields@.len(),
            fv == fields@.map_values(|f: (String, Bound)| entry_view(f)),
            result.entries() == stored_fields(fv.take(i as int)),
            names@.map_values(|s: String| s@) == fields@.map_values(|f: (String, Bound)| f.0@).take(i as int),
            forall|k: int| 0 <= k < i && all_ascii(#[trigger] fv[k].0) ==> spec_lowercase(fv[k].0) == ascii_lowercase(fv[k].0),
    {
        proof {
            assert(fv.take(i + 1).drop_last() == fv.take(i as int));
            assert(fv.take(i + 1).last() == entry_view(fields@[i as int]));
        }
        let name = fields[i].0.clone();
        let value = copy_bound(&fields[i].1);
        result.set_bound(name.as_str(), value);
        let ghost before = names@;
        names.push(name);
        proof {
            assert(names@.map_values(|s: String| s@) == before.map_values(|s: String| s@).push(fields@[i as int].0@));
        }
    }
    proof {
        assert(fv.take(n as int) == fv);
        assert(fields@.map_values(|f: (String, Bound)| f.0@).take(n as int) == fields@.map_values(
            |f: (String, Bound)| f.0@,
        ));
        if plain_lowercase_names(fv) {
            assert forall|k: int| 0 <= k < fv.len() implies spec_lowercase(#[trigger] fv[k].0) == fv[k].0 by {
                lemma_ascii_lowercase_keeps(fv[k].0);
            }
        }
        if plain_lowercase_names(fv) || lowercase_names(fv) {
            lemma_stored_as_given(fv);
            lemma_values_in_order(fv);
            assert(fields@.map_values(|f: (String, Bound)| f.0@) =~= fv.map_values(|e: (Seq<char>, BoundView)| e.0));
            assert(fields@.map_values(|f: (String, Bound)| value_or_null(to_sql_view(f.1))) =~= fv.map_values(
                |e: (Seq<char>, BoundView)| e.1,
            ).map_values(|b: BoundView| value_or_null(b)));
        }
    }
    result.create_static_params_for_fields(names.as_slice())
}

/// Whether the fields' names are their own lowercase forms, and no two alike: names that
/// setting a field leaves as they are.
pub open spec fn lowercase_names(fields: Seq<(Seq<char>, BoundView)>) -> bool {
    &&& forall|k: int| 0 <= k < fields.len() ==> spec_lowercase(#[trigger] fields[k].0) == fields[k].0
    &&& keys_unique(fields)
}

/// Whether the fields' names are ASCII without capital letters, and no two alike: names that
/// setting a field leaves as they are.
pub open spec fn plain_lowercase_names(fields: Seq<(Seq<char>, BoundView)>) -> bool {
    &&& forall|k: int| 0 <= k < fields.len() ==> all_ascii(#[trigger] fields[k].0) && no_ascii_upper(fields[k].0)
    &&& keys_unique(fields)
}

proof fn lemma_stored_as_given(fv: Seq<(Seq<char>, BoundView)>)
    requires
        keys_unique(fv),
        forall|k: int| 0 <= k < fv.len() ==> spec_lowercase(#[trigger] fv[k].0) == fv[k].0,
    ensures
        stored_fields(fv) == fv,
    decreases fv.len(),
{
    if fv.len() > 0 {
        let d = fv.drop_last();
        assert forall|k: int| 0 <= k < d.len() implies spec_lowercase(#[trigger] d[k].0) == d[k].0 by {
            assert(d[k] == fv[k]);
        }
        assert(keys_unique(d)) by {
            assert forall|i: int, j: int| 0 <= i < d.len() && 0 <= j < d.len() && i != j implies (#[trigger] d[i]).0
                != (#[trigger] d[j]).0 by {
                assert(d[i] == fv[i] && d[j] == fv[j]);
            }
        }
        lemma_stored_as_given(d);
        let last = fv.last();
        assert(spec_lowercase(last.0) == last.0) by {
            assert(fv[fv.len() - 1] == last);
        }
        assert(!exists|i: int| 0 <= i < d.len() && (#[trigger] d[i]).0 == last.0) by {
            assert forall|i: int| 0 <= i < d.len() implies (#[trigger] d[i]).0 != last.0 by {
                assert(d[i] == fv[i]);
                assert(fv[fv.len() - 1] == last);
            }
        }
        assert(d.push(last) =~= fv);
    }
}

proof fn lemma_values_prefix(e: Seq<(Seq<char>, BoundView)>, j: int)
    requires
        keys_unique(e),
        0 <= j <= e.len(),
    ensures
        values_of(e, e.map_values(|x: (Seq<char>, BoundView)| x.0).take(j)) == e.map_values(
            |x: (Seq<char>, BoundView)| x.1,
        ).take(j),
    decreases j,
{
    let names = e.map_values(|x: (Seq<char>, BoundView)| x.0);
    let vals = e.map_values(|x: (Seq<char>, BoundView)| x.1);
    if j == 0 {
        assert(names.take(0) =~= Seq::<Seq<char>>::empty());
        assert(vals.take(0) =~= Seq::<BoundView>::empty());
    } else {
        lemma_values_prefix(e, j - 1);
        lemma_lookup_at(e, j - 1);
        assert(names.take(j).drop_last() =~= names.take(j - 1));
        assert(names.take(j).last() == e[j - 1].0);
        assert(vals.take(j) =~= vals.take(j - 1).push(e[j - 1].1));
    }
}

proof fn lemma_values_in_order(e: Seq<(Seq<char>, BoundView)>)
    requires
        keys_unique(e),
    ensures
        values_of(e, e.map_values(|x: (Seq<char>, BoundView)| x.0)) == e.map_values(|x: (Seq<char>, BoundView)| x.1),
{
    lemma_values_prefix(e, e.len() as int);
    assert(e.map_values(|x: (Seq<char>, BoundView)| x.0).take(e.len() as int) =~= e.map_values(
        |x: (Seq<char>, BoundView)| x.0,
    ));
    assert(e.map_values(|x: (Seq<char>, BoundView)| x.1).take(e.len() as int) =~= e.map_values(
        |x: (Seq<char>, BoundView)| x.1,
    ));
}

} // verus!
