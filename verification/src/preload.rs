//! Generation-cancellable cache warmer.
//!
//! A preload task captures the generation counter as its ticket when it
//! starts. Every later step first compares its ticket against the live
//! counter: a mismatch means a newer search or an archive swap superseded
//! the task, and the step does nothing. Cancellation is cooperative — a
//! stale task is never able to mutate the dedicated cache, which is the
//! guarantee that matters; stopping promptly is best-effort.
//!
//! The caller (the embedding application) runs the actual loop and the
//! archive reads between steps; every decision and every cache mutation is
//! made here, under contract.

use vstd::prelude::*;
use vstd::hash_map::StringHashMap;
use crate::filesystem::deep_cache;

verus! {

/// The mathematical state of the warmer.
pub ghost struct PreloaderView {
    /// The live generation counter.
    pub generation: int,
    /// The dedicated content cache, keyed by archive-relative path.
    pub cache: Map<Seq<char>, Seq<char>>,
}

/// What one preload step decided for one candidate path.
#[derive(Debug, Clone, Copy, PartialEq, Eq, Structural)]
pub enum PreloadStep {
    /// The ticket is stale: stop at once, touch nothing.
    Cancelled,
    /// The path is already cached: skip it without touching the archive.
    AlreadyCached,
    /// The path must be read from the archive.
    Fetch,
}

/// Dedicated preload cache and its generation counter.
pub struct Preloader {
    generation: u64,
    cache: StringHashMap<String>,
}

impl View for Preloader {
    type V = PreloaderView;

    closed spec fn view(&self) -> PreloaderView {
        PreloaderView {
            generation: self.generation as int,
            cache: deep_cache(self.cache@),
        }
    }
}

impl Preloader {
    /// A fresh warmer: generation zero, empty cache.
    pub fn new() -> (r: Self)
        ensures
            r@.generation == 0,
            r@.cache =~= Map::<Seq<char>, Seq<char>>::empty(),
    {
        Preloader { generation: 0, cache: StringHashMap::new() }
    }

    /// The live generation counter.
    pub fn current_generation(&self) -> (r: u64)
        ensures
            r == self@.generation,
    {
        self.generation
    }

    /// Supersedes every in-flight task: increments the generation and hands
    /// the new value out as the starting task's ticket.
    pub fn bump_generation(&mut self) -> (ticket: u64)
        requires
            old(self)@.generation < u64::MAX,
        ensures
            final(self)@.generation == old(self)@.generation + 1,
            final(self)@.cache == old(self)@.cache,
            ticket == final(self)@.generation,
    {
        self.generation = self.generation + 1;
        self.generation
    }

    /// Empties the dedicated cache; the archive it mirrored is gone.
    pub fn clear_cache(&mut self)
        ensures
            final(self)@.generation == old(self)@.generation,
            final(self)@.cache =~= Map::<Seq<char>, Seq<char>>::empty(),
    {
        self.cache.clear();
    }

    /// The cached text for a path, if present.
    pub fn cache_get(&self, path: &str) -> (r: Option<String>)
        ensures
            match r {
                Some(s) => self@.cache.contains_key(path@) && s@ == self@.cache[path@],
                None => !self@.cache.contains_key(path@),
            },
    {
        match self.cache.get(path) {
            Some(s) => Some(s.clone()),
            None => None,
        }
    }

    /// Whether a path is already cached.
    pub fn cache_contains(&self, path: &str) -> (r: bool)
        ensures
            r == self@.cache.contains_key(path@),
    {
        self.cache.contains_key(path)
    }

    /// One pre-read cancellation check: what to do for this candidate.
    pub fn preload_step(&self, ticket: u64, path: &str) -> (r: PreloadStep)
        ensures
            r == (if self@.generation != ticket {
                PreloadStep::Cancelled
            } else if self@.cache.contains_key(path@) {
                PreloadStep::AlreadyCached
            } else {
                PreloadStep::Fetch
            }),
    {
        if self.generation != ticket {
            PreloadStep::Cancelled
        } else if self.cache.contains_key(path) {
            PreloadStep::AlreadyCached
        } else {
            PreloadStep::Fetch
        }
    }

    /// The post-read commit: caches the fetched content only if the ticket
    /// is still live and the path still absent. A stale task never mutates
    /// the cache; a raced duplicate insert is dropped.
    pub fn preload_commit(&mut self, ticket: u64, path: &str, content: String) -> (committed: bool)
        ensures
            final(self)@.generation == old(self)@.generation,
            old(self)@.generation != ticket ==> !committed && final(self)@.cache == old(
                self,
            )@.cache,
            old(self)@.generation == ticket ==> committed && final(self)@.cache == (if old(
                self,
            )@.cache.contains_key(path@) {
                old(self)@.cache
            } else {
                old(self)@.cache.insert(path@, content@)
            }),
    {
        if self.generation != ticket {
            return false;
        }
        if self.cache.contains_key(path) {
            return true;
        }
        let ghost prev = self@.cache;
        self.cache.insert(String::from_str(path), content);
        proof {
            assert(self@.cache =~= prev.insert(path@, content@));
        }
        true
    }

    /// Caches content for a path unless one is already there: the rule for
    /// foreground reads that share the dedicated cache.
    pub fn insert_if_absent(&mut self, path: &str, content: String)
        ensures
            final(self)@.generation == old(self)@.generation,
            final(self)@.cache == (if old(self)@.cache.contains_key(path@) {
                old(self)@.cache
            } else {
                old(self)@.cache.insert(path@, content@)
            }),
    {
        if self.cache.contains_key(path) {
            return ;
        }
        let ghost prev = self@.cache;
        self.cache.insert(String::from_str(path), content);
        proof {
            assert(self@.cache =~= prev.insert(path@, content@));
        }
    }
}

/// Cancellation is permanent: the generation only ever grows, so once a
/// newer task has bumped it past a ticket, that ticket never matches the
/// live generation again, and by `preload_commit`'s contract the superseded
/// task can no longer add any cache entry.
pub proof fn lemma_superseded_ticket_never_commits(ticket: int, bumped: int, now: int)
    requires
        ticket < bumped,
        bumped <= now,
    ensures
        ticket != now,
{
}

} // verus!
