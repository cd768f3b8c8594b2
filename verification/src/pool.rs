//! A pool of connection-like items, one per address: an item is built on the
//! first request for its address and shared by every later one.

use vstd::prelude::*;

verus! {

/// How a failed build is retried.
#[derive(Debug, Clone, Copy, PartialEq, Eq, Structural)]
pub enum RetryPolicy {
    FixedRetry,
    Forever,
}

/// How often and how soon a failed build is retried.
#[derive(Debug, Clone, Copy, PartialEq, Eq, Structural)]
pub struct RetryConfig {
    retry_times: u32,
    initial_retry_interval_millis: u64,
    retry_policy: RetryPolicy,
}

impl RetryConfig {
    /// A retry configuration with the given values.
    pub fn new(retry_times: u32, initial_retry_interval_millis: u64, retry_policy: RetryPolicy) -> (r:
        Self)
        ensures
            r.retry_times() == retry_times,
            r.initial_retry_interval_millis() == initial_retry_interval_millis,
            r.retry_policy() == retry_policy,
    {
        RetryConfig { retry_times, initial_retry_interval_millis, retry_policy }
    }

    /// How many times a build is retried.
    #[verifier::when_used_as_spec(spec_retry_times)]
    pub fn retry_times(&self) -> (r: u32)
        ensures
            r == self.spec_retry_times(),
    {
        self.retry_times
    }

    /// How many times a build is retried.
    pub closed spec fn spec_retry_times(&self) -> u32 {
        self.retry_times
    }

    /// How long to wait before the first retry, in milliseconds.
    #[verifier::when_used_as_spec(spec_initial_retry_interval_millis)]
    pub fn initial_retry_interval_millis(&self) -> (r: u64)
        ensures
            r == self.spec_initial_retry_interval_millis(),
    {
        self.initial_retry_interval_millis
    }

    /// How long to wait before the first retry, in milliseconds.
    pub closed spec fn spec_initial_retry_interval_millis(&self) -> u64 {
        self.initial_retry_interval_millis
    }

    /// The retry policy.
    #[verifier::when_used_as_spec(spec_retry_policy)]
    pub fn retry_policy(&self) -> (r: RetryPolicy)
        ensures
            r == self.spec_retry_policy(),
    {
        self.retry_policy
    }

    /// The retry policy.
    pub closed spec fn spec_retry_policy(&self) -> RetryPolicy {
        self.retry_policy
    }
}

/// Builds the item for an address. Building may fail, and says nothing of
/// what it returns: the pool works with whatever comes back.
pub trait PoolItemBuilder {
    /// What is pooled: a handle that is cheap to copy.
    type Item: Clone;

    /// Why a build failed.
    type Error;

    /// Builds the item for `token`.
    fn build(&self, token: &String) -> Result<Self::Item, Self::Error>;
}

/// The pool after a request for `key` that found `built` where it had to
/// build: a key that is cached leaves the pool as it is; else a built item is
/// cached under the key, and a failed build leaves no entry.
pub open spec fn after_get<I>(pool: Map<Seq<char>, I>, key: Seq<char>, built: Option<I>) -> Map<
    Seq<char>,
    I,
> {
    if pool.contains_key(key) {
        pool
    } else {
        match built {
            Some(item) => pool.insert(key, item),
            None => pool,
        }
    }
}

/// How many builds a request for `key` makes: none where the key is cached,
/// else one.
pub open spec fn builds_for<I>(pool: Map<Seq<char>, I>, key: Seq<char>) -> nat {
    if pool.contains_key(key) {
        0
    } else {
        1
    }
}

/// The pool after a run of requests for `key`, the i-th of which finds
/// `built[i]` where it has to build.
pub open spec fn after_gets<I>(pool: Map<Seq<char>, I>, key: Seq<char>, built: Seq<Option<I>>) -> Map<
    Seq<char>,
    I,
>
    decreases built.len(),
{
    if built.len() == 0 {
        pool
    } else {
        after_get(after_gets(pool, key, built.drop_last()), key, built.last())
    }
}

/// How many builds a run of requests for `key` makes.
pub open spec fn builds_in<I>(pool: Map<Seq<char>, I>, key: Seq<char>, built: Seq<Option<I>>) -> nat
    decreases built.len(),
{
    if built.len() == 0 {
        0
    } else {
        builds_in(pool, key, built.drop_last()) + builds_for(
            after_gets(pool, key, built.drop_last()),
            key,
        )
    }
}

/// Requests for a key that is not cached, with a builder that succeeds: the
/// first request builds, no later one does, and the item that the first one
/// built is the one cached, which every request is served from.
pub proof fn lemma_one_build<I>(pool: Map<Seq<char>, I>, key: Seq<char>, built: Seq<Option<I>>)
    requires
        !pool.contains_key(key),
        built.len() >= 1,
        forall|i: int| 0 <= i < built.len() ==> (#[trigger] built[i]) is Some,
    ensures
        builds_in(pool, key, built) == 1,
        after_gets(pool, key, built) == pool.insert(key, built[0]->Some_0),
    decreases built.len(),
{
    if built.len() == 1 {
        assert(built.drop_last() =~= Seq::<Option<I>>::empty());
        assert(after_gets(pool, key, built.drop_last()) == pool);
        assert(builds_in(pool, key, built.drop_last()) == 0);
    } else {
        lemma_one_build(pool, key, built.drop_last());
        assert(built.drop_last()[0] == built[0]);
    }
}

/// Requests for a key that is not cached, with a builder that always fails:
/// every request builds again, and the pool stays as it was: no failed build
/// is cached.
pub proof fn lemma_failed_builds_leave_no_entry<I>(
    pool: Map<Seq<char>, I>,
    key: Seq<char>,
    built: Seq<Option<I>>,
)
    requires
        !pool.contains_key(key),
        forall|i: int| 0 <= i < built.len() ==> (#[trigger] built[i]) is None,
    ensures
        builds_in(pool, key, built) == built.len(),
        after_gets(pool, key, built) == pool,
    decreases built.len(),
{
    if built.len() > 0 {
        lemma_failed_builds_leave_no_entry(pool, key, built.drop_last());
    }
}

/// The items of `entries`, each under its address; a later entry stands in
/// place of an earlier one with the same address.
pub open spec fn pooled<I>(entries: Seq<(String, I)>) -> Map<Seq<char>, I>
    decreases entries.len(),
{
    if entries.len() == 0 {
        Map::empty()
    } else {
        pooled(entries.drop_last()).insert(entries.last().0@, entries.last().1)
    }
}

/// A pool of items keyed by address. One lock guards the pool, so requests
/// are served one at a time: two requests that miss the same address build
/// one after the other, and the later build replaces the earlier.
pub struct MutexPool<ItemBuilder: PoolItemBuilder> {
    inner: Vec<(String, ItemBuilder::Item)>,
    item_builder: ItemBuilder,
    retry_build_config: Option<RetryConfig>,
}

impl<ItemBuilder: PoolItemBuilder> View for MutexPool<ItemBuilder> {
    type V = Map<Seq<char>, ItemBuilder::Item>;

    closed spec fn view(&self) -> Map<Seq<char>, ItemBuilder::Item> {
        pooled(self.inner@)
    }
}

impl<ItemBuilder: PoolItemBuilder> MutexPool<ItemBuilder> {
    /// An empty pool that builds its items with `item_builder`.
    pub fn new(item_builder: ItemBuilder, retry_build_config: Option<RetryConfig>) -> (r: Self)
        ensures
            r@ == Map::<Seq<char>, ItemBuilder::Item>::empty(),
            r.builder() == item_builder,
            r.retry_config() == retry_build_config,
    {
        MutexPool { inner: Vec::new(), item_builder, retry_build_config }
    }

    /// The builder.
    pub closed spec fn builder(&self) -> ItemBuilder {
        self.item_builder
    }

    /// The retry configuration.
    pub closed spec fn retry_config(&self) -> Option<RetryConfig> {
        self.retry_build_config
    }

    /// The builder.
    pub fn item_builder(&self) -> (b: &ItemBuilder)
        ensures
            *b == self.builder(),
    {
        &self.item_builder
    }

    /// The retry configuration.
    pub fn retry_build_config(&self) -> (c: Option<RetryConfig>)
        ensures
            c == self.retry_config(),
    {
        self.retry_build_config
    }

    /// A copy of the item cached for `token`, if one is.
    pub fn lookup(&self, token: &String) -> (r: Option<ItemBuilder::Item>)
        ensures
            match r {
                Some(item) => self@.contains_key(token@) && cloned(self@[token@], item),
                None => !self@.contains_key(token@),
            },
    {
        let mut i: usize = self.inner.len();
        proof {
            assert(self.inner@.take(i as int) =~= self.inner@);
        }
        while i > 0
            invariant
                i <= self.inner.len(),
                pooled(self.inner@).contains_key(token@) == pooled(
                    self.inner@.take(i as int),
                ).contains_key(token@),
                pooled(self.inner@).contains_key(token@) ==> pooled(self.inner@)[token@] == pooled(
                    self.inner@.take(i as int),
                )[token@],
            decreases i,
        {
            i = i - 1;
            proof {
                assert(self.inner@.take(i + 1).drop_last() =~= self.inner@.take(i as int));
                assert(self.inner@.take(i + 1).last() == self.inner@[i as int]);
            }
            if self.inner[i].0 == *token {
                return Some(self.inner[i].1.clone());
            }
        }
        proof {
            assert(self.inner@.take(0).len() == 0);
        }
        None
    }

    /// Takes in what a build for `token` gave: an item is cached under the
    /// address, in place of any that was there, and handed on; a failure is
    /// handed on and leaves the pool as it was.
    pub fn store_built(
        &mut self,
        token: &String,
        built: Result<ItemBuilder::Item, ItemBuilder::Error>,
    ) -> (r: Result<ItemBuilder::Item, ItemBuilder::Error>)
        ensures
            r == built,
            final(self).builder() == old(self).builder(),
            final(self).retry_config() == old(self).retry_config(),
            match built {
                Ok(item) => final(self)@.contains_key(token@) && cloned(item, final(self)@[token@])
                    && final(self)@ == old(self)@.insert(token@, final(self)@[token@]),
                Err(_) => final(self)@ == old(self)@,
            },
    {
        match built {
            Ok(item) => {
                let stored = item.clone();
                self.inner.push((token.clone(), stored));
                proof {
                    assert(self.inner@.drop_last() =~= old(self).inner@);
                }
                Ok(item)
            },
            Err(e) => Err(e),
        }
    }

    /// The item for `token`: a copy of the cached one, and where none is
    /// cached, the one that the builder builds now, which is then cached. A
    /// failed build is handed on and caches nothing, so that a later request
    /// builds again.
    pub fn get(&mut self, token: &String) -> (r: Result<ItemBuilder::Item, ItemBuilder::Error>)
        ensures
            final(self).builder() == old(self).builder(),
            final(self).retry_config() == old(self).retry_config(),
            old(self)@.contains_key(token@) ==> r is Ok && cloned(old(self)@[token@], r->Ok_0)
                && final(self)@ == old(self)@,
            !old(self)@.contains_key(token@) ==> match r {
                Ok(item) => final(self)@.contains_key(token@) && cloned(item, final(self)@[token@])
                    && final(self)@ == after_get(old(self)@, token@, Some(final(self)@[token@])),
                Err(_) => final(self)@ == after_get(old(self)@, token@, None),
            },
    {
        if let Some(item) = self.lookup(token) {
            return Ok(item);
        }
        let built = self.item_builder.build(token);
        self.store_built(token, built)
    }
}

} // verus!
