//! Log aggregator: category-partitioned caches of diagnostic log lines with
//! a minimum refresh interval, bounded size, line truncation, and a
//! sorted/deduplicated whole-category fallback when the primary per-category
//! sources all fail.
//!
//! Fetching itself (journal queries, file tails, container-runtime calls) is
//! blocking I/O and happens outside this crate; the caller hands the outcome
//! of one fetch round to `update`, which applies it only when the cache is
//! stale.

use vstd::prelude::*;
use crate::nav::LogCategory;
use crate::i18n::{Language, t, translation_spec};
use crate::lineset::{sorted_unique_of, sort_dedup_lines};
use crate::textparse::views_of;

verus! {

/// No category cache ever holds more lines than this.
pub const MAX_LOG_LINES: usize = 500;

/// A cached line is cut at this many characters and marked truncated.
pub const MAX_LINE_LENGTH: usize = 4096;

/// Minimum gap between two cache refreshes, in milliseconds.
pub const LOG_UPDATE_INTERVAL_MS: u64 = 2000;

/// A line as cached: cut at the maximum length and marked truncated.
pub open spec fn truncated_line_spec(s: Seq<char>) -> Seq<char> {
    if s.len() > MAX_LINE_LENGTH {
        s.take(MAX_LINE_LENGTH as int) + "...[截断]"@
    } else {
        s
    }
}

/// The truncation function as a function value.
pub open spec fn trunc_fn() -> spec_fn(Seq<char>) -> Seq<char> {
    |l: Seq<char>| truncated_line_spec(l)
}

/// A batch cut down to the maximum cache size.
pub open spec fn capped_lines(ls: Seq<Seq<char>>) -> Seq<Seq<char>> {
    if ls.len() > MAX_LOG_LINES {
        ls.take(MAX_LOG_LINES as int)
    } else {
        ls
    }
}

/// What one fetched category stores: its lines capped, or nothing.
pub open spec fn fetched_views(o: Option<Vec<String>>) -> Seq<Seq<char>> {
    match o {
        Some(v) => capped_lines(views_of(v@)),
        None => Seq::empty(),
    }
}

/// The whole-category fallback cache computed from gathered lines: sorted
/// and deduplicated first, then each line truncated, then capped.
pub open spec fn fallback_pipeline_spec(ls: Seq<Seq<char>>) -> Seq<Seq<char>> {
    capped_lines(sorted_unique_of(ls).map_values(trunc_fn()))
}

/// Whether a refresh is due: at least the minimum interval has passed.
pub open spec fn refresh_due(last_update_ms: u64, now_ms: u64) -> bool {
    now_ms >= last_update_ms && now_ms - last_update_ms >= LOG_UPDATE_INTERVAL_MS
}

/// The outcome of one per-category fetch round over the primary sources;
/// a category whose source failed carries `None`.
pub struct CategoryFetch {
    pub system: Option<Vec<String>>,
    pub kernel: Option<Vec<String>>,
    pub error: Option<Vec<String>>,
    pub docker: Option<Vec<String>>,
    pub boot: Option<Vec<String>>,
}

/// What one fetch round produced.
pub enum LogFetch {
    /// The primary per-category sources answered (each on its own).
    Categories(CategoryFetch),
    /// Every primary source failed; these are the lines the whole-category
    /// flat-file fallback gathered.
    Fallback(Vec<String>),
    /// The fallback failed as well.
    FallbackFailed,
    /// This platform has none of the log sources.
    Unsupported,
}

/// Category-partitioned log cache.
pub struct LogsData {
    lines: Vec<String>,
    system_logs: Vec<String>,
    kernel_logs: Vec<String>,
    error_logs: Vec<String>,
    docker_logs: Vec<String>,
    boot_logs: Vec<String>,
    fallback_all: Option<Vec<String>>,
    cache_valid: bool,
    last_update_ms: u64,
}

impl LogsData {
    /// The cached lines of one real category; `All` holds no cache of its
    /// own.
    pub closed spec fn cache_view(&self, c: LogCategory) -> Seq<Seq<char>> {
        match c {
            LogCategory::System => views_of(self.system_logs@),
            LogCategory::Kernel => views_of(self.kernel_logs@),
            LogCategory::Error => views_of(self.error_logs@),
            LogCategory::Docker => views_of(self.docker_logs@),
            LogCategory::Boot => views_of(self.boot_logs@),
            LogCategory::All => Seq::empty(),
        }
    }

    /// The whole-category fallback cache, when that path was used.
    pub closed spec fn fallback_view(&self) -> Option<Seq<Seq<char>>> {
        match self.fallback_all {
            Some(v) => Some(views_of(v@)),
            None => None,
        }
    }

    /// When the cache was last refreshed.
    pub closed spec fn last_update(&self) -> u64 {
        self.last_update_ms
    }

    /// Whether any refresh has succeeded.
    pub closed spec fn valid(&self) -> bool {
        self.cache_valid
    }

    /// Views of the default display lines.
    pub closed spec fn lines_view(&self) -> Seq<Seq<char>> {
        views_of(self.lines@)
    }

    /// What a read of one category returns: a real category reads its own
    /// cache; `All` reads the fallback cache if that path was used, and
    /// otherwise the five real categories concatenated in fixed order.
    pub open spec fn logs_view(&self, c: LogCategory) -> Seq<Seq<char>> {
        match c {
            LogCategory::All => match self.fallback_view() {
                Some(f) => f,
                None => self.cache_view(LogCategory::System)
                    + self.cache_view(LogCategory::Kernel)
                    + self.cache_view(LogCategory::Error)
                    + self.cache_view(LogCategory::Docker)
                    + self.cache_view(LogCategory::Boot),
            },
            _ => self.cache_view(c),
        }
    }

    /// A fresh, empty, stale cache; the first refresh becomes due one
    /// interval after `now_ms`.
    pub fn new(now_ms: u64) -> (r: Self)
        ensures
            r.cache_view(LogCategory::System) == Seq::<Seq<char>>::empty(),
            r.cache_view(LogCategory::Kernel) == Seq::<Seq<char>>::empty(),
            r.cache_view(LogCategory::Error) == Seq::<Seq<char>>::empty(),
            r.cache_view(LogCategory::Docker) == Seq::<Seq<char>>::empty(),
            r.cache_view(LogCategory::Boot) == Seq::<Seq<char>>::empty(),
            r.fallback_view() is None,
            !r.valid(),
            r.last_update() == now_ms,
            r.lines_view() == Seq::<Seq<char>>::empty(),
    {
        let r = LogsData {
            lines: Vec::new(),
            system_logs: Vec::new(),
            kernel_logs: Vec::new(),
            error_logs: Vec::new(),
            docker_logs: Vec::new(),
            boot_logs: Vec::new(),
            fallback_all: None,
            cache_valid: false,
            last_update_ms: now_ms,
        };
        proof {
            assert(views_of(r.lines@) =~= Seq::<Seq<char>>::empty());
        }
        r
    }

    /// Cuts an overlong line and marks it truncated.
    pub fn truncate_line(line: &str) -> (r: String)
        ensures
            r@ == truncated_line_spec(line@),
    {
        let n = line.unicode_len();
        if n > MAX_LINE_LENGTH {
            let head = line.substring_char(0, MAX_LINE_LENGTH).to_owned();
            proof {
                assert(line@.subrange(0, MAX_LINE_LENGTH as int) =~= line@.take(MAX_LINE_LENGTH as int));
            }
            head.concat("...[截断]")
        } else {
            line.to_owned()
        }
    }

    /// Whether enough time has passed for `update` to refresh the cache.
    pub fn needs_refresh(&self, now_ms: u64) -> (r: bool)
        ensures
            r == refresh_due(self.last_update(), now_ms),
    {
        now_ms >= self.last_update_ms && now_ms - self.last_update_ms >= LOG_UPDATE_INTERVAL_MS
    }

    /// Returns the cached lines of one category; a pure read.
    pub fn get_logs_by_category(&self, category: &LogCategory) -> (r: Vec<String>)
        ensures
            views_of(r@) == self.logs_view(*category),
    {
        match category {
            LogCategory::System => clone_lines(&self.system_logs),
            LogCategory::Kernel => clone_lines(&self.kernel_logs),
            LogCategory::Error => clone_lines(&self.error_logs),
            LogCategory::Docker => clone_lines(&self.docker_logs),
            LogCategory::Boot => clone_lines(&self.boot_logs),
            LogCategory::All => {
                match &self.fallback_all {
                    Some(f) => clone_lines(f),
                    None => {
                        let mut all = clone_lines(&self.system_logs);
                        append_lines(&mut all, &self.kernel_logs);
                        append_lines(&mut all, &self.error_logs);
                        append_lines(&mut all, &self.docker_logs);
                        append_lines(&mut all, &self.boot_logs);
                        all
                    },
                }
            },
        }
    }

    /// The default display lines (the system category as of the last
    /// refresh).
    pub fn lines(&self) -> (r: &Vec<String>)
        ensures
            views_of(r@) == self.lines_view(),
    {
        &self.lines
    }

    /// Applies the outcome of one fetch round to the caches,
    /// unconditionally.  The refresh timestamp is untouched.
    pub fn get_all_logs(&mut self, lang: Language, fetch: LogFetch)
        ensures
            fetch_applied(*old(self), *final(self), lang, fetch),
            final(self).last_update() == old(self).last_update(),
    {
        match fetch {
            LogFetch::Categories(cf) => {
                store_fetch(&mut self.system_logs, cf.system);
                store_fetch(&mut self.kernel_logs, cf.kernel);
                store_fetch(&mut self.error_logs, cf.error);
                store_fetch(&mut self.docker_logs, cf.docker);
                store_fetch(&mut self.boot_logs, cf.boot);
                self.fallback_all = None;
                self.cache_valid = true;
                self.lines = self.get_logs_by_category(&LogCategory::System);
            },
            LogFetch::Fallback(gathered) => {
                let ghost gviews = views_of(gathered@);
                let sorted = sort_dedup_lines(&gathered);
                let m = sorted.len();
                let mut cooked: Vec<String> = Vec::new();
                let mut i: usize = 0;
                proof {
                    assert(views_of(sorted@).take(0) =~= Seq::<Seq<char>>::empty());
                    assert(views_of(cooked@) =~= views_of(sorted@).take(0).map_values(trunc_fn()));
                }
                while i < m
                    invariant
                        m == sorted@.len(),
                        i <= m,
                        views_of(cooked@) == views_of(sorted@).take(i as int).map_values(trunc_fn()),
                    decreases m - i,
                {
                    proof {
                        assert(views_of(sorted@)[i as int] == sorted@[i as int]@);
                    }
                    let tl = LogsData::truncate_line(sorted[i].as_str());
                    let ghost prev = views_of(cooked@);
                    cooked.push(tl);
                    proof {
                        assert(views_of(cooked@) =~= prev.push(truncated_line_spec(sorted@[i as int]@)));
                        let t1 = views_of(sorted@).take(i + 1);
                        assert(t1.drop_last() =~= views_of(sorted@).take(i as int));
                        assert(t1.last() == views_of(sorted@)[i as int]);
                        assert(t1.map_values(trunc_fn())
                            =~= views_of(sorted@).take(i as int).map_values(trunc_fn())
                                .push(trunc_fn()(views_of(sorted@)[i as int])));
                    }
                    i += 1;
                }
                proof {
                    assert(views_of(sorted@).take(m as int) =~= views_of(sorted@));
                }
                if cooked.len() > MAX_LOG_LINES {
                    let ghost full = views_of(cooked@);
                    cooked.truncate(MAX_LOG_LINES);
                    proof {
                        assert(views_of(cooked@) =~= full.take(MAX_LOG_LINES as int));
                    }
                }
                self.fallback_all = Some(cooked);
                self.cache_valid = true;
                self.lines = self.get_logs_by_category(&LogCategory::System);
            },
            LogFetch::FallbackFailed => {
                let msg = t(lang, "log_read_failed").to_owned();
                let mut placeholder: Vec<String> = Vec::new();
                let ghost gmsg = msg@;
                placeholder.push(msg);
                proof {
                    assert(views_of(placeholder@) =~= seq![gmsg]);
                }
                self.fallback_all = Some(placeholder);
                self.lines = self.get_logs_by_category(&LogCategory::System);
            },
            LogFetch::Unsupported => {
                let msg = t(lang, "linux_only_logs").to_owned();
                let mut placeholder: Vec<String> = Vec::new();
                let ghost gmsg = msg@;
                placeholder.push(msg);
                proof {
                    assert(views_of(placeholder@) =~= seq![gmsg]);
                }
                self.system_logs = Vec::new();
                self.kernel_logs = Vec::new();
                self.error_logs = Vec::new();
                self.docker_logs = Vec::new();
                self.boot_logs = Vec::new();
                let display = clone_lines(&placeholder);
                self.fallback_all = Some(placeholder);
                self.lines = display;
                proof {
                    assert(views_of(Seq::<String>::empty()) =~= Seq::<Seq<char>>::empty());
                }
            },
        }
    }

    /// One update call: a no-op while the cache is fresh, otherwise applies
    /// the fetched outcome and stamps the refresh time.  Returns whether the
    /// fetch was applied.
    pub fn update(&mut self, lang: Language, now_ms: u64, fetch: LogFetch) -> (applied: bool)
        ensures
            applied == refresh_due(old(self).last_update(), now_ms),
            !applied ==> *final(self) == *old(self),
            applied ==> fetch_applied(*old(self), *final(self), lang, fetch)
                && final(self).last_update() == now_ms,
    {
        if !self.needs_refresh(now_ms) {
            return false;
        }
        self.get_all_logs(lang, fetch);
        self.last_update_ms = now_ms;
        true
    }

    /// Releases resources; this aggregator holds none, so nothing changes.
    pub fn cleanup(&mut self)
        ensures
            *final(self) == *old(self),
    {
    }
}

/// How one fetch outcome transforms the cache state.
pub open spec fn fetch_applied(pre: LogsData, post: LogsData, lang: Language, fetch: LogFetch) -> bool {
    match fetch {
        LogFetch::Categories(cf) => {
            &&& post.cache_view(LogCategory::System) == fetched_views(cf.system)
            &&& post.cache_view(LogCategory::Kernel) == fetched_views(cf.kernel)
            &&& post.cache_view(LogCategory::Error) == fetched_views(cf.error)
            &&& post.cache_view(LogCategory::Docker) == fetched_views(cf.docker)
            &&& post.cache_view(LogCategory::Boot) == fetched_views(cf.boot)
            &&& post.fallback_view() is None
            &&& post.valid()
            &&& post.lines_view() == post.logs_view(LogCategory::System)
        },
        LogFetch::Fallback(gathered) => {
            &&& unchanged_categories(pre, post)
            &&& post.fallback_view() == Some(fallback_pipeline_spec(views_of(gathered@)))
            &&& post.valid()
            &&& post.lines_view() == post.logs_view(LogCategory::System)
        },
        LogFetch::FallbackFailed => {
            &&& unchanged_categories(pre, post)
            &&& post.fallback_view() == Some(seq![translation_spec(lang, "log_read_failed"@)])
            &&& post.valid() == pre.valid()
            &&& post.lines_view() == post.logs_view(LogCategory::System)
        },
        LogFetch::Unsupported => {
            &&& post.cache_view(LogCategory::System) == Seq::<Seq<char>>::empty()
            &&& post.cache_view(LogCategory::Kernel) == Seq::<Seq<char>>::empty()
            &&& post.cache_view(LogCategory::Error) == Seq::<Seq<char>>::empty()
            &&& post.cache_view(LogCategory::Docker) == Seq::<Seq<char>>::empty()
            &&& post.cache_view(LogCategory::Boot) == Seq::<Seq<char>>::empty()
            &&& post.fallback_view() == Some(seq![translation_spec(lang, "linux_only_logs"@)])
            &&& post.lines_view() == seq![translation_spec(lang, "linux_only_logs"@)]
            &&& post.valid() == pre.valid()
        },
    }
}

/// The five real category caches are the same in both states.
pub open spec fn unchanged_categories(pre: LogsData, post: LogsData) -> bool {
    &&& post.cache_view(LogCategory::System) == pre.cache_view(LogCategory::System)
    &&& post.cache_view(LogCategory::Kernel) == pre.cache_view(LogCategory::Kernel)
    &&& post.cache_view(LogCategory::Error) == pre.cache_view(LogCategory::Error)
    &&& post.cache_view(LogCategory::Docker) == pre.cache_view(LogCategory::Docker)
    &&& post.cache_view(LogCategory::Boot) == pre.cache_view(LogCategory::Boot)
}

/// Reading `All` while no fallback is cached concatenates the five real
/// categories in their fixed order.
pub proof fn lemma_all_is_concatenation(d: LogsData)
    requires
        d.fallback_view() is None,
    ensures
        d.logs_view(LogCategory::All)
            == d.logs_view(LogCategory::System)
            + d.logs_view(LogCategory::Kernel)
            + d.logs_view(LogCategory::Error)
            + d.logs_view(LogCategory::Docker)
            + d.logs_view(LogCategory::Boot),
{
}

/// Copies a batch of lines.
fn clone_lines(v: &Vec<String>) -> (r: Vec<String>)
    ensures
        r@ == v@,
{
    let n = v.len();
    let mut out: Vec<String> = Vec::new();
    let mut i: usize = 0;
    while i < n
        invariant
            n == v@.len(),
            i <= n,
            out@ == v@.take(i as int),
        decreases n - i,
    {
        out.push(v[i].clone());
        proof {
            assert(out@ =~= v@.take(i + 1));
        }
        i += 1;
    }
    proof {
        assert(v@.take(n as int) =~= v@);
    }
    out
}

/// Appends copies of a batch of lines.
fn append_lines(dst: &mut Vec<String>, src: &Vec<String>)
    ensures
        final(dst)@ == old(dst)@ + src@,
{
    let n = src.len();
    let mut i: usize = 0;
    proof {
        assert(dst@ =~= old(dst)@ + src@.take(0));
    }
    while i < n
        invariant
            n == src@.len(),
            i <= n,
            dst@ == old(dst)@ + src@.take(i as int),
        decreases n - i,
    {
        dst.push(src[i].clone());
        proof {
            assert(dst@ =~= old(dst)@ + src@.take(i + 1));
        }
        i += 1;
    }
    proof {
        assert(src@.take(n as int) =~= src@);
    }
}

/// Stores one fetched category: its lines capped at the maximum cache size,
/// or an empty cache when the source failed.
fn store_fetch(dst: &mut Vec<String>, src: Option<Vec<String>>)
    ensures
        views_of(final(dst)@) == fetched_views(src),
{
    match src {
        Some(mut v) => {
            if v.len() > MAX_LOG_LINES {
                let ghost full = views_of(v@);
                v.truncate(MAX_LOG_LINES);
                proof {
                    assert(views_of(v@) =~= full.take(MAX_LOG_LINES as int));
                }
            }
            *dst = v;
        },
        None => {
            *dst = Vec::new();
            proof {
                assert(views_of(dst@) =~= Seq::<Seq<char>>::empty());
            }
        },
    }
}

} // verus!
