//! The registry as a mathematical value, what the operations make of it,
//! and what holds of them.

use vstd::prelude::*;

verus! {

/// A bucket as a mathematical value.
pub struct BucketView {
    pub name: Seq<char>,
    pub path: Seq<char>,
}

/// The test "this bucket is called `name`".
pub open spec fn named(name: Seq<char>) -> spec_fn(BucketView) -> bool {
    |b: BucketView| b.name == name
}

/// The test "this bucket is not called `name`".
pub open spec fn not_named(name: Seq<char>) -> spec_fn(BucketView) -> bool {
    |b: BucketView| b.name != name
}

/// The first of `buckets` that is called `name`.
pub open spec fn first_named(buckets: Seq<BucketView>, name: Seq<char>) -> Option<BucketView> {
    let found = buckets.filter(named(name));
    if found.len() > 0 {
        Some(found.first())
    } else {
        None
    }
}

/// The registry as a mathematical value: the buckets in the order in which
/// they were added, and the name of the default bucket, if one is set.
pub struct RegistryView {
    pub default_bucket: Option<Seq<char>>,
    pub buckets: Seq<BucketView>,
}

impl RegistryView {
    /// The registry with no bucket and no default.
    pub open spec fn empty() -> RegistryView {
        RegistryView { default_bucket: None, buckets: Seq::empty() }
    }

    /// The first bucket, in registry order, that is called `name`.
    pub open spec fn find(self, name: Seq<char>) -> Option<BucketView> {
        first_named(self.buckets, name)
    }

    /// The bucket that the default name stands for. There is none when no
    /// default is set, and none when the name that is set belongs to no
    /// bucket.
    pub open spec fn default(self) -> Option<BucketView> {
        match self.default_bucket {
            Some(name) => self.find(name),
            None => None,
        }
    }

    /// The default name, where one is set, belongs to a bucket.
    pub open spec fn wf(self) -> bool {
        self.default_bucket matches Some(name) ==> self.find(name) is Some
    }

    /// The bucket that a command works in: the one called `chosen`, or the
    /// default where nothing is chosen.
    pub open spec fn bucket_for(self, chosen: Option<Seq<char>>) -> Option<BucketView> {
        match chosen {
            Some(name) => self.find(name),
            None => self.default(),
        }
    }

    /// The buckets that a listing shows: all of them, or those called
    /// `only`, in registry order.
    pub open spec fn select(self, only: Option<Seq<char>>) -> Seq<BucketView> {
        match only {
            Some(name) => self.buckets.filter(named(name)),
            None => self.buckets,
        }
    }

    /// The registry after a bucket was added: it goes to the end, and it
    /// becomes the default where the registry, with the new bucket in it, has
    /// none.
    pub open spec fn add(self, name: Seq<char>, path: Seq<char>) -> RegistryView {
        let grown = RegistryView {
            default_bucket: self.default_bucket,
            buckets: self.buckets.push(BucketView { name: name, path: path }),
        };
        if grown.default() is None {
            RegistryView { default_bucket: Some(name), buckets: grown.buckets }
        } else {
            grown
        }
    }

    /// The registry with `name` as its default.
    pub open spec fn set_default(self, name: Seq<char>) -> RegistryView {
        RegistryView { default_bucket: Some(name), buckets: self.buckets }
    }

    /// The registry with no default.
    pub open spec fn unset_default(self) -> RegistryView {
        RegistryView { default_bucket: None, buckets: self.buckets }
    }

    /// Whether `name` is the default and belongs to a bucket.
    pub open spec fn is_default(self, name: Seq<char>) -> bool {
        self.default() matches Some(bucket) && bucket.name == name
    }

    /// The registry after `name` was forgotten: every bucket of that name
    /// is gone, the others keep their order, and the default is cleared where
    /// it was `name`.
    pub open spec fn forget(self, name: Seq<char>) -> RegistryView {
        RegistryView {
            default_bucket: if self.is_default(name) {
                None
            } else {
                self.default_bucket
            },
            buckets: self.buckets.filter(not_named(name)),
        }
    }
}

/// A bucket called `name` that has no bucket of that name before it is the
/// one that `find` gives.
pub proof fn lemma_find_first(buckets: Seq<BucketView>, name: Seq<char>, at: int)
    requires
        0 <= at < buckets.len(),
        buckets[at].name == name,
        forall|j: int| 0 <= j < at ==> buckets[j].name != name,
    ensures
        first_named(buckets, name) == Some(buckets[at]),
{
    let before = buckets.take(at);
    let after = buckets.skip(at + 1);
    let hit = seq![buckets[at]];
    assert(buckets =~= before + (hit + after));
    assert(before.all(|b: BucketView| !named(name)(b)));
    before.lemma_all_neg_filter_empty(named(name));
    Seq::filter_distributes_over_add(before, hit + after, named(name));
    after.lemma_filter_prepend(buckets[at], named(name));
    assert(buckets.filter(named(name)) =~= hit + after.filter(named(name)));
}

/// Where no bucket is called `name`, `find` gives nothing.
pub proof fn lemma_find_none(buckets: Seq<BucketView>, name: Seq<char>)
    requires
        forall|j: int| 0 <= j < buckets.len() ==> buckets[j].name != name,
    ensures
        first_named(buckets, name) is None,
{
    assert(buckets.all(|b: BucketView| !named(name)(b)));
    buckets.lemma_all_neg_filter_empty(named(name));
}

/// What `find` gives is a bucket of the registry that is called `name` and
/// has no bucket of that name before it; it gives nothing only where no
/// bucket is called `name`.
pub proof fn lemma_find(buckets: Seq<BucketView>, name: Seq<char>)
    ensures
        match first_named(buckets, name) {
            Some(bucket) => exists|at: int|
                {
                    &&& 0 <= at < buckets.len()
                    &&& #[trigger] buckets[at] == bucket
                    &&& bucket.name == name
                    &&& forall|j: int| 0 <= j < at ==> buckets[j].name != name
                },
            None => forall|j: int| 0 <= j < buckets.len() ==> buckets[j].name != name,
        },
{
    if exists|at: int| 0 <= at < buckets.len() && buckets[at].name == name {
        let at: int = least_named(buckets, name, buckets.len() as int);
        lemma_find_first(buckets, name, at);
    } else {
        lemma_find_none(buckets, name);
    }
}

/// The place of the first bucket called `name` among the first `limit`
/// buckets, where there is one.
proof fn least_named(buckets: Seq<BucketView>, name: Seq<char>, limit: int) -> (at: int)
    requires
        0 <= limit <= buckets.len(),
        exists|i: int| 0 <= i < limit && buckets[i].name == name,
    ensures
        0 <= at < limit,
        buckets[at].name == name,
        forall|j: int| 0 <= j < at ==> buckets[j].name != name,
    decreases limit,
{
    if exists|i: int| 0 <= i < limit - 1 && buckets[i].name == name {
        least_named(buckets, name, limit - 1)
    } else {
        limit - 1
    }
}

/// Filtering by a test after filtering by a weaker one is filtering by the
/// test alone.
pub proof fn lemma_filter_within(
    buckets: Seq<BucketView>,
    outer: spec_fn(BucketView) -> bool,
    inner: spec_fn(BucketView) -> bool,
)
    requires
        forall|b: BucketView| #[trigger] inner(b) ==> outer(b),
    ensures
        buckets.filter(outer).filter(inner) == buckets.filter(inner),
    decreases buckets.len(),
{
    if buckets.len() == 0 {
        assert(buckets.filter(outer) =~= buckets) by {
            reveal(Seq::filter);
        }
    } else {
        let front = buckets.drop_last();
        let last = buckets.last();
        assert(buckets =~= front.push(last));
        lemma_filter_within(front, outer, inner);
        front.lemma_filter_push(last, outer);
        front.lemma_filter_push(last, inner);
        if outer(last) {
            front.filter(outer).lemma_filter_push(last, inner);
        }
    }
}

/// Every bucket is either called `name` or not.
pub proof fn lemma_named_split(buckets: Seq<BucketView>, name: Seq<char>)
    ensures
        buckets.filter(named(name)).len() + buckets.filter(not_named(name)).len()
            == buckets.len(),
    decreases buckets.len(),
{
    if buckets.len() == 0 {
        reveal(Seq::filter);
    } else {
        let front = buckets.drop_last();
        let last = buckets.last();
        assert(buckets =~= front.push(last));
        lemma_named_split(front, name);
        front.lemma_filter_push(last, named(name));
        front.lemma_filter_push(last, not_named(name));
    }
}

/// After a bucket was added, the registry has a default that belongs to a
/// bucket.
pub proof fn lemma_add_wf(registry: RegistryView, name: Seq<char>, path: Seq<char>)
    ensures
        registry.add(name, path).wf(),
        registry.add(name, path).find(name) is Some,
{
    let bucket = BucketView { name: name, path: path };
    registry.buckets.lemma_filter_push(bucket, named(name));
}

/// Adding a bucket leaves a default that there is as it was. Where there was
/// none, the default is afterwards the first bucket of the name that was
/// added: the new bucket itself, unless the name was in use.
pub proof fn lemma_add_default(registry: RegistryView, name: Seq<char>, path: Seq<char>)
    ensures
        registry.default() is Some ==> registry.add(name, path).default() == registry.default(),
        registry.default() is None ==> registry.add(name, path).default() == registry.add(
            name,
            path,
        ).find(name),
        registry.find(name) is None ==> registry.add(name, path).find(name) == Some(
            BucketView { name: name, path: path },
        ),
        registry.find(name) is Some ==> registry.add(name, path).find(name) == registry.find(name),
{
    let bucket = BucketView { name: name, path: path };
    registry.buckets.lemma_filter_push(bucket, named(name));
    if let Some(was) = registry.default_bucket {
        registry.buckets.lemma_filter_push(bucket, named(was));
    }
}

/// Adding a bucket changes nothing for the other names.
pub proof fn lemma_add_keeps(
    registry: RegistryView,
    name: Seq<char>,
    path: Seq<char>,
    other: Seq<char>,
)
    requires
        other != name,
    ensures
        registry.add(name, path).find(other) == registry.find(other),
        registry.add(name, path).buckets.len() == registry.buckets.len() + 1,
{
    let bucket = BucketView { name: name, path: path };
    registry.buckets.lemma_filter_push(bucket, named(other));
}

/// A registry whose default is set to the name of one of its buckets has
/// that bucket as its default.
pub proof fn lemma_set_default(registry: RegistryView, name: Seq<char>)
    requires
        registry.find(name) is Some,
    ensures
        registry.set_default(name).wf(),
        registry.set_default(name).default() == registry.find(name),
{
}

/// Clearing the default leaves no default, and clearing it once more
/// changes nothing.
pub proof fn lemma_unset_default(registry: RegistryView)
    ensures
        registry.unset_default().default() is None,
        registry.unset_default().wf(),
        registry.unset_default().unset_default() == registry.unset_default(),
{
}

/// After a name was forgotten no bucket has it, and the other names find
/// what they found before.
pub proof fn lemma_forget_find(registry: RegistryView, name: Seq<char>, other: Seq<char>)
    ensures
        registry.forget(name).find(name) is None,
        other != name ==> registry.forget(name).find(other) == registry.find(other),
{
    let kept = registry.buckets.filter(not_named(name));
    assert forall|i: int| 0 <= i < kept.len() implies !named(name)(#[trigger] kept[i]) by {
        registry.buckets.lemma_filter_pred(not_named(name), i);
    }
    assert(kept.all(|b: BucketView| !named(name)(b)));
    kept.lemma_all_neg_filter_empty(named(name));
    if other != name {
        lemma_filter_within(registry.buckets, not_named(name), named(other));
    }
}

/// Forgetting the default bucket leaves no default. Forgetting any other
/// name leaves the default bucket as it was.
pub proof fn lemma_forget_default(registry: RegistryView, name: Seq<char>)
    ensures
        registry.is_default(name) ==> registry.forget(name).default() is None,
        !registry.is_default(name) ==> registry.forget(name).default() == registry.default(),
{
    if !registry.is_default(name) {
        if let Some(was) = registry.default_bucket {
            lemma_forget_find(registry, name, was);
            if was == name {
                assert(registry.find(name) is None) by {
                    if registry.find(name) is Some {
                        registry.buckets.lemma_filter_pred(named(name), 0);
                    }
                }
            }
        }
    }
}

/// Forgetting a name keeps a default that belongs to a bucket in that
/// state.
pub proof fn lemma_forget_wf(registry: RegistryView, name: Seq<char>)
    requires
        registry.wf(),
    ensures
        registry.forget(name).wf(),
{
    lemma_forget_default(registry, name);
}

/// Forgetting a name takes away as many buckets as have it: none exactly
/// where no bucket is found under it.
pub proof fn lemma_forget_len(registry: RegistryView, name: Seq<char>)
    ensures
        registry.forget(name).buckets.len() + registry.buckets.filter(named(name)).len()
            == registry.buckets.len(),
        registry.forget(name).buckets.len() == registry.buckets.len() <==> registry.find(name)
            is None,
{
    lemma_named_split(registry.buckets, name);
}

/// Once a name is forgotten, forgetting it again changes nothing.
pub proof fn lemma_forget_twice(registry: RegistryView, name: Seq<char>)
    ensures
        registry.forget(name).forget(name) == registry.forget(name),
{
    lemma_forget_find(registry, name, name);
    lemma_filter_within(registry.buckets, not_named(name), not_named(name));
}

} // verus!
