//! Decisions around the one shared Chrome instance: headless mode, when to
//! (re)launch, which profile to launch on, which profile files to copy, and
//! which isolated profile directories to prune. Launching Chrome and touching
//! the file system are the caller's part.

use vstd::prelude::*;
use crate::text::{chars_of, string_from_chars, owned, concat2, contains, has_sub, starts_with, ends_with, has_prefix, has_suffix, decimal, decimal_string};
use crate::config::{Config, ProfileStrategy};

verus! {

/// Headless mode for a new page: the inverse of an explicit `show_browser`,
/// else the configured default.
pub fn target_headless(show_browser: Option<bool>, cfg: &Config) -> (r: bool)
    ensures
        r == (match show_browser { Some(show) => !show, None => cfg@.headless }),
{
    match show_browser {
        Some(show) => !show,
        None => cfg.headless,
    }
}

/// What to do about the shared browser before opening a page.
#[derive(Debug, Clone, Copy, PartialEq, Eq, Structural)]
pub enum BrowserNeed {
    /// The running browser fits: open the page on it.
    UseRunning,
    /// The running browser is in the other headless mode: drop it and launch a new one.
    RelaunchModeChange,
    /// The running browser no longer answers: drop it and launch a new one.
    RelaunchStale,
    /// No browser is running: launch one.
    Launch,
}

/// Given the headless mode of the running browser (if any), whether it answers,
/// and the wanted mode, decide what to do.
pub fn decide_browser(running_headless: Option<bool>, alive: bool, target: bool) -> (r: BrowserNeed)
    ensures
        running_headless.is_none() ==> r == BrowserNeed::Launch,
        running_headless.is_some() && running_headless.unwrap() != target ==> r == BrowserNeed::RelaunchModeChange,
        running_headless == Some(target) && !alive ==> r == BrowserNeed::RelaunchStale,
        running_headless == Some(target) && alive ==> r == BrowserNeed::UseRunning,
{
    match running_headless {
        None => BrowserNeed::Launch,
        Some(h) => if h != target {
            BrowserNeed::RelaunchModeChange
        } else if !alive {
            BrowserNeed::RelaunchStale
        } else {
            BrowserNeed::UseRunning
        },
    }
}

/// A launch error says the profile is locked by another Chrome process.
pub open spec fn locked_error(msg: Seq<char>) -> bool {
    has_sub(msg, "ProcessSingleton"@) || has_sub(msg, "SingletonLock"@) || has_sub(msg, "already in use"@)
}

pub fn is_profile_locked_error(msg: &str) -> (r: bool)
    ensures
        r == locked_error(msg@),
{
    contains(msg, "ProcessSingleton") || contains(msg, "SingletonLock") || contains(msg, "already in use")
}

/// Which profile directory a launch attempt uses.
#[derive(Debug, Clone, Copy, PartialEq, Eq, Structural)]
pub enum ProfileChoice {
    /// The shared base profile.
    Base,
    /// A fresh isolated per-process profile.
    Isolated,
}

/// The profile of the first launch attempt for a strategy.
pub fn first_profile(strategy: ProfileStrategy) -> (r: ProfileChoice)
    ensures
        strategy == ProfileStrategy::Isolated ==> r == ProfileChoice::Isolated,
        strategy != ProfileStrategy::Isolated ==> r == ProfileChoice::Base,
{
    match strategy {
        ProfileStrategy::Isolated => ProfileChoice::Isolated,
        ProfileStrategy::Single => ProfileChoice::Base,
        ProfileStrategy::Auto => ProfileChoice::Base,
    }
}

/// After a failed launch on the base profile: only the `Auto` strategy falls
/// back to an isolated profile, and only when the profile was locked.
pub fn fallback_after_failure(strategy: ProfileStrategy, error_message: &str) -> (r: bool)
    ensures
        r == (strategy == ProfileStrategy::Auto && locked_error(error_message@)),
{
    match strategy {
        ProfileStrategy::Auto => is_profile_locked_error(error_message),
        _ => false,
    }
}

/// Command-line arguments given to every Chrome launch.
pub fn launch_args() -> (r: Vec<&'static str>)
    ensures
        r@.map_values(|a: &str| a@) == seq![
            "--disable-blink-features=AutomationControlled"@,
            "--disable-dev-shm-usage"@,
            "--no-first-run"@,
            "--no-default-browser-check"@,
            "--disable-infobars"@,
            "--lang=en-US"@,
        ],
{
    let mut v: Vec<&'static str> = Vec::new();
    v.push("--disable-blink-features=AutomationControlled");
    v.push("--disable-dev-shm-usage");
    v.push("--no-first-run");
    v.push("--no-default-browser-check");
    v.push("--disable-infobars");
    v.push("--lang=en-US");
    assert(v@.map_values(|a: &str| a@) =~= seq![
        "--disable-blink-features=AutomationControlled"@,
        "--disable-dev-shm-usage"@,
        "--no-first-run"@,
        "--no-default-browser-check"@,
        "--disable-infobars"@,
        "--lang=en-US"@,
    ]);
    v
}

/// The window size of a headed browser; a headless one gets none.
pub fn window_size(headless: bool) -> (r: Option<(u32, u32)>)
    ensures
        headless ==> r.is_none(),
        !headless ==> r == Some((1280u32, 900u32)),
{
    if headless {
        None
    } else {
        Some((1280, 900))
    }
}

/// The last `/`-separated piece of a path.
pub open spec fn last_segment(p: Seq<char>) -> Seq<char>
    decreases p.len(),
{
    if p.len() == 0 {
        Seq::empty()
    } else if p.last() == '/' {
        Seq::empty()
    } else {
        last_segment(p.drop_last()).push(p.last())
    }
}

/// The name shown for the launched browser: the file name of the configured
/// executable (when it is valid UTF-8), else `Chrome/Edge`.
pub fn browser_display_name(exe: Option<&str>) -> (r: String)
    ensures
        match exe {
            Some(p) => r@ == last_segment(p@),
            None => r@ == "Chrome/Edge"@,
        },
{
    match exe {
        None => owned("Chrome/Edge"),
        Some(p) => {
            let cs = chars_of(p);
            let mut start: usize = cs.len();
            assert(cs@.subrange(0, start as int) =~= cs@);
            assert(last_segment(cs@) + cs@.subrange(start as int, cs.len() as int) =~= last_segment(cs@));
            while start > 0 && cs[start - 1] != '/'
                invariant
                    start <= cs.len(),
                    last_segment(cs@) == last_segment(cs@.subrange(0, start as int)) + cs@.subrange(start as int, cs.len() as int),
                decreases start,
            {
                let ghost pre = cs@.subrange(0, start as int);
                assert(pre.drop_last() =~= cs@.subrange(0, start - 1));
                assert(last_segment(pre) == last_segment(pre.drop_last()).push(pre.last()));
                assert(last_segment(pre.drop_last()).push(pre.last()) + cs@.subrange(start as int, cs.len() as int)
                    =~= last_segment(cs@.subrange(0, start - 1)) + cs@.subrange(start - 1, cs.len() as int));
                start = start - 1;
            }
            let ghost pre = cs@.subrange(0, start as int);
            assert(last_segment(pre) =~= Seq::<char>::empty());
            let mut seg: Vec<char> = Vec::new();
            let mut i: usize = start;
            while i < cs.len()
                invariant
                    start <= i <= cs.len(),
                    seg@ == cs@.subrange(start as int, i as int),
                decreases cs.len() - i,
            {
                seg.push(cs[i]);
                assert(seg@ =~= cs@.subrange(start as int, i + 1));
                i = i + 1;
            }
            assert(Seq::<char>::empty() + cs@.subrange(start as int, cs.len() as int) =~= seg@);
            string_from_chars(&seg)
        },
    }
}

/// The directory name of an isolated profile: `instance-<pid>-<millis>`.
pub fn instance_dir_name(pid: u32, millis: u64) -> (r: String)
    ensures
        r@ == "instance-"@ + decimal(pid as nat) + "-"@ + decimal(millis as nat),
{
    let a = concat2("instance-", decimal_string(pid as u64).as_str());
    let b = concat2(a.as_str(), "-");
    concat2(b.as_str(), decimal_string(millis).as_str())
}

/// Lock files, singletons and temporary files are not copied into an isolated profile.
pub open spec fn copied_name(name: Seq<char>) -> bool {
    !(has_prefix(name, "Singleton"@) || has_suffix(name, ".lock"@) || has_suffix(name, ".tmp"@))
}

pub fn should_copy_profile_entry(name: &str) -> (r: bool)
    ensures
        r == copied_name(name@),
{
    !(starts_with(name, "Singleton") || ends_with(name, ".lock") || ends_with(name, ".tmp"))
}

// ---------------------------------------------------------------------------
// Pruning isolated profiles
// ---------------------------------------------------------------------------

/// An isolated profile directory: its age in whole seconds and whether it is
/// the one in use. The caller lists them newest first.
#[derive(Debug, Clone, Copy)]
pub struct ProfileDirAge {
    pub age_secs: u64,
    pub is_current: bool,
}

/// The prune decisions for the directories (newest first) and the number kept:
/// the current directory is kept; another is pruned when older than the TTL
/// (a TTL of zero disables it) or when the kept count has reached the maximum.
pub open spec fn prune_plan(dirs: Seq<ProfileDirAge>, ttl_secs: nat, max_count: nat) -> (Seq<bool>, nat)
    decreases dirs.len(),
{
    if dirs.len() == 0 {
        (Seq::empty(), 0)
    } else {
        let (flags, kept) = prune_plan(dirs.drop_last(), ttl_secs, max_count);
        let d = dirs.last();
        if d.is_current {
            (flags.push(false), kept + 1)
        } else if (ttl_secs > 0 && d.age_secs > ttl_secs) || kept >= max_count {
            (flags.push(true), kept)
        } else {
            (flags.push(false), kept + 1)
        }
    }
}

/// The directories are ordered newest first: ages never decrease.
pub open spec fn newest_first(dirs: Seq<ProfileDirAge>) -> bool {
    forall|i: int, j: int| 0 <= i <= j < dirs.len() ==> (#[trigger] dirs[i]).age_secs <= (#[trigger] dirs[j]).age_secs
}

/// Which isolated profile directories to delete (one flag per directory, in
/// the given newest-first order).
pub fn prune_isolated_profiles(dirs: &Vec<ProfileDirAge>, cfg: &Config) -> (r: Vec<bool>)
    requires
        cfg@.instance_profile_ttl_hours * 3600 <= u64::MAX,
        newest_first(dirs@),
    ensures
        r@ == prune_plan(dirs@, cfg@.instance_profile_ttl_hours as nat * 3600, cfg@.instance_profile_max_count as nat).0,
{
    let ttl_secs: u64 = cfg.instance_profile_ttl_hours * 3600;
    let max_count: usize = cfg.instance_profile_max_count as usize;
    let mut kept: usize = 0;
    let mut flags: Vec<bool> = Vec::new();
    let mut i: usize = 0;
    while i < dirs.len()
        invariant
            ttl_secs == cfg@.instance_profile_ttl_hours * 3600,
            max_count == cfg@.instance_profile_max_count,
            i <= dirs.len(),
            kept <= i,
            (flags@, kept as nat) == prune_plan(dirs@.subrange(0, i as int), ttl_secs as nat, max_count as nat),
        decreases dirs.len() - i,
    {
        let ghost nxt = dirs@.subrange(0, i + 1);
        assert(nxt.drop_last() =~= dirs@.subrange(0, i as int));
        assert(nxt.last() == dirs@[i as int]);
        let d = dirs[i];
        if d.is_current {
            flags.push(false);
            kept = kept + 1;
        } else {
            let over_ttl = ttl_secs > 0 && d.age_secs > ttl_secs;
            let over_count = kept >= max_count;
            if over_ttl || over_count {
                flags.push(true);
            } else {
                flags.push(false);
                kept = kept + 1;
            }
        }
        i = i + 1;
    }
    assert(dirs@.subrange(0, dirs@.len() as int) =~= dirs@);
    flags
}

/// The number of directories that are kept and not current.
pub open spec fn kept_others(dirs: Seq<ProfileDirAge>, flags: Seq<bool>) -> nat
    decreases dirs.len(),
{
    if dirs.len() == 0 || flags.len() == 0 {
        0
    } else {
        kept_others(dirs.drop_last(), flags.drop_last()) + (if !flags.last() && !dirs.last().is_current { 1nat } else { 0 })
    }
}

proof fn lemma_prune_plan_shape(dirs: Seq<ProfileDirAge>, ttl_secs: nat, max_count: nat)
    ensures
        prune_plan(dirs, ttl_secs, max_count).0.len() == dirs.len(),
        kept_others(dirs, prune_plan(dirs, ttl_secs, max_count).0) <= prune_plan(dirs, ttl_secs, max_count).1,
        kept_others(dirs, prune_plan(dirs, ttl_secs, max_count).0) <= max_count,
    decreases dirs.len(),
{
    if dirs.len() > 0 {
        lemma_prune_plan_shape(dirs.drop_last(), ttl_secs, max_count);
        let (flags, kept) = prune_plan(dirs.drop_last(), ttl_secs, max_count);
        let f2 = prune_plan(dirs, ttl_secs, max_count).0;
        assert(f2.drop_last() =~= flags);
    }
}

/// Pruning never deletes the profile in use, deletes every other profile older
/// than the TTL, and keeps at most the maximum count of the other profiles.
pub proof fn law_prune_respects_current_ttl_and_count(dirs: Seq<ProfileDirAge>, ttl_secs: nat, max_count: nat)
    ensures
        forall|i: int| 0 <= i < dirs.len() && dirs[i].is_current ==> !#[trigger] prune_plan(dirs, ttl_secs, max_count).0[i],
        forall|i: int| 0 <= i < dirs.len() && !dirs[i].is_current && ttl_secs > 0 && dirs[i].age_secs > ttl_secs
            ==> #[trigger] prune_plan(dirs, ttl_secs, max_count).0[i],
        kept_others(dirs, prune_plan(dirs, ttl_secs, max_count).0) <= max_count,
    decreases dirs.len(),
{
    lemma_prune_plan_shape(dirs, ttl_secs, max_count);
    if dirs.len() > 0 {
        let init = dirs.drop_last();
        law_prune_respects_current_ttl_and_count(init, ttl_secs, max_count);
        lemma_prune_plan_shape(init, ttl_secs, max_count);
        let f = prune_plan(init, ttl_secs, max_count).0;
        let f2 = prune_plan(dirs, ttl_secs, max_count).0;
        assert forall|i: int| 0 <= i < dirs.len() && dirs[i].is_current implies !#[trigger] f2[i] by {
            if i < init.len() {
                assert(f2[i] == f[i]);
                assert(init[i] == dirs[i]);
            }
        }
        assert forall|i: int| 0 <= i < dirs.len() && !dirs[i].is_current && ttl_secs > 0 && dirs[i].age_secs > ttl_secs implies #[trigger] f2[i] by {
            if i < init.len() {
                assert(f2[i] == f[i]);
                assert(init[i] == dirs[i]);
            }
        }
    }
}

} // verus!
