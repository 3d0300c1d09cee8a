use vstd::prelude::*;
use crate::resolve::{ConfigValue, value_view, resolved_suffix, resolve_resource_suffix};

verus! {

/// What the configuration source holds under `key`: the value set last under it.
pub open spec fn lookup(
    entries: Seq<(Seq<char>, Option<Option<Seq<char>>>)>,
    key: Seq<char>,
) -> Option<Option<Seq<char>>>
    decreases entries.len(),
{
    if entries.len() == 0 {
        None
    } else if entries.last().0 == key {
        entries.last().1
    } else {
        lookup(entries.drop_last(), key)
    }
}

/// A configuration source held in memory: values stored under text keys.
pub struct Pool {
    entries: Vec<(String, ConfigValue)>,
}

impl View for Pool {
    type V = Seq<(Seq<char>, Option<Option<Seq<char>>>)>;

    closed spec fn view(&self) -> Self::V {
        self.entries@.map_values(|e: (String, ConfigValue)| (e.0@, value_view(e.1)))
    }
}

fn same_text(a: &str, b: &str) -> (r: bool)
    ensures
        r == (a@ == b@),
{
    let n = a.unicode_len();
    if n != b.unicode_len() {
        return false;
    }
    let mut i: usize = 0;
    while i < n
        invariant
            n == a@.len() == b@.len(),
            i <= n,
            a@.subrange(0, i as int) == b@.subrange(0, i as int),
        decreases n - i,
    {
        if a.get_char(i) != b.get_char(i) {
            assert(a@[i as int] != b@[i as int]);
            return false;
        }
        assert(a@.subrange(0, i + 1) =~= a@.subrange(0, i as int).push(a@[i as int]));
        assert(b@.subrange(0, i + 1) =~= b@.subrange(0, i as int).push(b@[i as int]));
        i = i + 1;
    }
    assert(a@ =~= a@.subrange(0, n as int));
    assert(b@ =~= b@.subrange(0, n as int));
    true
}

fn copy_value(v: &ConfigValue) -> (r: ConfigValue)
    ensures
        value_view(r) == value_view(*v),
{
    match v {
        ConfigValue::Missing => ConfigValue::Missing,
        ConfigValue::Text(s) => ConfigValue::Text(s.clone()),
        ConfigValue::Other => ConfigValue::Other,
    }
}

impl Pool {
    /// A source that holds nothing.
    pub fn new() -> (r: Pool)
        ensures
            r@ == Seq::<(Seq<char>, Option<Option<Seq<char>>>)>::empty(),
    {
        let r = Pool { entries: Vec::new() };
        assert(r@ =~= Seq::<(Seq<char>, Option<Option<Seq<char>>>)>::empty());
        r
    }

    /// Stores `value` under `key`, in place of what was stored there.
    pub fn set(&mut self, key: &str, value: ConfigValue)
        ensures
            final(self)@ == old(self)@.push((key@, value_view(value))),
    {
        let ghost v = value_view(value);
        self.entries.push((String::from_str(key), value));
        assert(self@ =~= old(self)@.push((key@, v)));
    }

    /// What is stored under `key`; `ConfigValue::Missing` when nothing is.
    pub fn get(&self, key: &str) -> (r: ConfigValue)
        ensures
            value_view(r) == lookup(self@, key@),
    {
        let mut i = self.entries.len();
        assert(self@.subrange(0, i as int) =~= self@);
        while i > 0
            invariant
                i <= self.entries@.len(),
                lookup(self@, key@) == lookup(self@.subrange(0, i as int), key@),
            decreases i,
        {
            let ghost part = self@.subrange(0, i as int);
            assert(part.last() == self@[i - 1]);
            if same_text(self.entries[i - 1].0.as_str(), key) {
                return copy_value(&self.entries[i - 1].1);
            }
            assert(part.drop_last() =~= self@.subrange(0, i - 1));
            i = i - 1;
        }
        ConfigValue::Missing
    }

    /// A second handle on the same contents.
    pub fn copy(&self) -> (r: Pool)
        ensures
            r@ == self@,
    {
        let mut entries: Vec<(String, ConfigValue)> = Vec::new();
        let mut i: usize = 0;
        while i < self.entries.len()
            invariant
                i <= self.entries@.len(),
                entries@.len() == i,
                forall|k: int|
                    0 <= k < i ==> #[trigger] entries@[k].0@ == self.entries@[k].0@
                        && value_view(entries@[k].1) == value_view(self.entries@[k].1),
            decreases self.entries@.len() - i,
        {
            let key = self.entries[i].0.clone();
            let value = copy_value(&self.entries[i].1);
            entries.push((key, value));
            i = i + 1;
        }
        let r = Pool { entries };
        assert(r@ =~= self@);
        r
    }
}

/// The key under which the compiler version banner is stored.
pub open spec fn compiler_version_key() -> Seq<char> {
    "rustc_version"@
}

/// Resolves the resource suffix from what `source` holds under the compiler version key;
/// the placeholder where that is missing or malformed.
pub fn resource_suffix_from(source: &Pool) -> (r: String)
    ensures
        r@ == resolved_suffix(lookup(source@, compiler_version_key())),
{
    let v = source.get("rustc_version");
    resolve_resource_suffix(&v)
}

/// A configuration source held in memory, under a schema name of its own, that stands in
/// for the service's database where the store is exercised on its own.
pub struct TestDatabase {
    pool: Pool,
    schema: String,
}

impl TestDatabase {
    /// An empty source named `schema`.
    pub fn new(schema: &str) -> (r: TestDatabase)
        ensures
            r.pool_view() == Seq::<(Seq<char>, Option<Option<Seq<char>>>)>::empty(),
            r.schema_view() == schema@,
    {
        TestDatabase { pool: Pool::new(), schema: String::from_str(schema) }
    }

    /// What the source holds.
    pub closed spec fn pool_view(&self) -> Seq<(Seq<char>, Option<Option<Seq<char>>>)> {
        self.pool@
    }

    /// The schema name.
    pub closed spec fn schema_view(&self) -> Seq<char> {
        self.schema@
    }

    /// The schema name.
    pub fn schema(&self) -> (r: &String)
        ensures
            r@ == self.schema_view(),
    {
        &self.schema
    }

    /// Stores `value` under `key`.
    pub fn set(&mut self, key: &str, value: ConfigValue)
        ensures
            final(self).pool_view() == old(self).pool_view().push((key@, value_view(value))),
            final(self).schema_view() == old(self).schema_view(),
    {
        self.pool.set(key, value);
    }

    /// A handle on the source, to hand to a catalog build.
    pub fn pool(&self) -> (r: Pool)
        ensures
            r@ == self.pool_view(),
    {
        self.pool.copy()
    }

    /// The source itself, for one lookup after another.
    pub fn conn(&self) -> (r: &Pool)
        ensures
            r@ == self.pool_view(),
    {
        &self.pool
    }
}

} // verus!
