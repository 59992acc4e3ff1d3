//! The settings of the application.

use vstd::prelude::*;
use vstd::string::StringExecFns;

use crate::text::{is_blank, is_blank_str, same_text};

verus! {

/// The longest delay before a restoration that the settings accept.
pub const MAX_RESTORE_DELAY_MS: u64 = 60_000;

/// The largest number of attempts that the settings accept.
pub const MAX_RETRY_ATTEMPTS: u32 = 10;

/// The settings of the application.
#[derive(Debug, PartialEq, Eq)]
pub struct Config {
    pub auto_restore: bool,
    pub display_change_detection: bool,
    /// The applications whose windows are left alone, by identity.
    pub exclude_apps: Vec<String>,
    pub minimize_hidden_windows: bool,
    pub restore_delay_ms: u64,
    pub max_retry_attempts: u32,
    pub scan_interval_ms: u64,
    pub max_memory_usage_mb: u64,
}

/// The mathematical value of a `Config`.
pub struct ConfigView {
    pub auto_restore: bool,
    pub display_change_detection: bool,
    pub exclude_apps: Seq<Seq<char>>,
    pub minimize_hidden_windows: bool,
    pub restore_delay_ms: u64,
    pub max_retry_attempts: u32,
    pub scan_interval_ms: u64,
    pub max_memory_usage_mb: u64,
}

/// The setting that is out of bounds.
#[derive(Debug, Clone, Copy, PartialEq, Eq, Structural)]
pub enum ConfigError {
    /// The restore delay is above `MAX_RESTORE_DELAY_MS`.
    RestoreDelayTooLong,
    /// There are more attempts than `MAX_RETRY_ATTEMPTS`.
    TooManyRetryAttempts,
    /// The scan interval is zero.
    ScanIntervalZero,
    /// The memory limit is zero.
    MemoryLimitZero,
    /// The excluded application at `index` is empty or white space.
    BlankExcludedApp { index: usize },
}

/// The views of the strings, in order.
pub open spec fn identities(strings: Seq<String>) -> Seq<Seq<char>> {
    Seq::new(strings.len(), |i: int| strings[i]@)
}

/// The index of the first blank entry at or after `from`, or the number of
/// entries where there is none.
pub open spec fn first_blank(entries: Seq<Seq<char>>, from: int) -> int
    decreases entries.len() - from,
{
    if from < 0 || from >= entries.len() {
        entries.len() as int
    } else if is_blank(entries[from]) {
        from
    } else {
        first_blank(entries, from + 1)
    }
}

/// `entries` without each entry that equals `id`, the others in order.
pub open spec fn without(entries: Seq<Seq<char>>, id: Seq<char>) -> Seq<Seq<char>>
    decreases entries.len(),
{
    if entries.len() == 0 {
        Seq::empty()
    } else if entries.last() == id {
        without(entries.drop_last(), id)
    } else {
        without(entries.drop_last(), id).push(entries.last())
    }
}

/// What `without` leaves: no entry that equals `id`, and every other entry.
pub proof fn lemma_without(entries: Seq<Seq<char>>, id: Seq<char>, other: Seq<char>)
    ensures
        !without(entries, id).contains(id),
        other != id ==> (without(entries, id).contains(other) <==> entries.contains(other)),
    decreases entries.len(),
{
    if entries.len() > 0 {
        let earlier = entries.drop_last();
        let kept = without(earlier, id);
        lemma_without(earlier, id, other);
        if entries.last() != id {
            assert forall|i: int| 0 <= i < kept.push(entries.last()).len() implies kept.push(
                entries.last(),
            )[i] != id by {
                if i < kept.len() {
                    assert(kept.contains(kept[i]));
                }
            }
        }
        if other != id {
            let after = without(entries, id);
            if after.contains(other) {
                let i = choose|i: int| 0 <= i < after.len() && after[i] == other;
                if i < kept.len() {
                    assert(kept.contains(other));
                    let j = choose|j: int| 0 <= j < earlier.len() && earlier[j] == other;
                    assert(entries[j] == other);
                } else {
                    assert(entries[entries.len() - 1] == other);
                }
            }
            if entries.contains(other) {
                let j = choose|j: int| 0 <= j < entries.len() && entries[j] == other;
                if j < earlier.len() {
                    assert(earlier[j] == other);
                    assert(earlier.contains(other));
                    let i = choose|i: int| 0 <= i < kept.len() && kept[i] == other;
                    assert(after[i] == other);
                } else {
                    assert(after[after.len() - 1] == other);
                }
            }
        }
    }
}

/// The directory of the application's data, part by part: the directory
/// that the caller names wins; else it is `window_restore` in the user's
/// data directory; else `target/window_restore` in the current directory.
pub open spec fn data_root_parts(
    custom: Option<Seq<char>>,
    user_data_dir: Option<Seq<char>>,
    current_dir: Seq<char>,
) -> Seq<Seq<char>> {
    match custom {
        Some(base) => seq![base],
        None => match user_data_dir {
            Some(dir) => seq![dir, "window_restore"@],
            None => seq![current_dir, "target"@, "window_restore"@],
        },
    }
}

/// The view of a string that may be missing.
pub open spec fn text_of(s: Option<String>) -> Option<Seq<char>> {
    match s {
        Some(t) => Some(t@),
        None => None,
    }
}

/// The directory of the application's data, part by part, with `leaf` as
/// its last part.
pub fn data_path(
    custom: Option<String>,
    user_data_dir: Option<String>,
    current_dir: String,
    leaf: &str,
) -> (parts: Vec<String>)
    ensures
        identities(parts@) == data_root_parts(
            text_of(custom),
            text_of(user_data_dir),
            current_dir@,
        ).push(leaf@),
{
    let mut parts: Vec<String> = Vec::new();
    match custom {
        Some(base) => {
            parts.push(base);
        },
        None => match user_data_dir {
            Some(dir) => {
                parts.push(dir);
                parts.push(String::from_str("window_restore"));
            },
            None => {
                parts.push(current_dir);
                parts.push(String::from_str("target"));
                parts.push(String::from_str("window_restore"));
            },
        },
    }
    parts.push(String::from_str(leaf));
    assert(identities(parts@) =~= data_root_parts(
        text_of(custom),
        text_of(user_data_dir),
        current_dir@,
    ).push(leaf@));
    parts
}

impl ConfigView {
    /// The first setting that is out of bounds, in the order in which they
    /// are checked; `None` where all are within bounds.
    pub open spec fn fault(self) -> Option<ConfigError> {
        if self.restore_delay_ms > MAX_RESTORE_DELAY_MS {
            Some(ConfigError::RestoreDelayTooLong)
        } else if self.max_retry_attempts > MAX_RETRY_ATTEMPTS {
            Some(ConfigError::TooManyRetryAttempts)
        } else if self.scan_interval_ms == 0 {
            Some(ConfigError::ScanIntervalZero)
        } else if self.max_memory_usage_mb == 0 {
            Some(ConfigError::MemoryLimitZero)
        } else if first_blank(self.exclude_apps, 0) < self.exclude_apps.len() {
            Some(ConfigError::BlankExcludedApp { index: first_blank(self.exclude_apps, 0) as usize })
        } else {
            None
        }
    }

    /// The settings that an installation starts with.
    pub open spec fn standard() -> ConfigView {
        ConfigView {
            auto_restore: false,
            display_change_detection: true,
            exclude_apps: seq!["com.apple.finder"@],
            minimize_hidden_windows: true,
            restore_delay_ms: 1000,
            max_retry_attempts: 3,
            scan_interval_ms: 5000,
            max_memory_usage_mb: 50,
        }
    }
}

impl View for Config {
    type V = ConfigView;

    open spec fn view(&self) -> ConfigView {
        ConfigView {
            auto_restore: self.auto_restore,
            display_change_detection: self.display_change_detection,
            exclude_apps: identities(self.exclude_apps@),
            minimize_hidden_windows: self.minimize_hidden_windows,
            restore_delay_ms: self.restore_delay_ms,
            max_retry_attempts: self.max_retry_attempts,
            scan_interval_ms: self.scan_interval_ms,
            max_memory_usage_mb: self.max_memory_usage_mb,
        }
    }
}

impl Default for Config {
    fn default() -> (r: Self)
        ensures
            r@ == ConfigView::standard(),
    {
        let mut exclude_apps: Vec<String> = Vec::new();
        exclude_apps.push(String::from_str("com.apple.finder"));
        assert(identities(exclude_apps@) =~= seq!["com.apple.finder"@]);
        Config {
            auto_restore: false,
            display_change_detection: true,
            exclude_apps,
            minimize_hidden_windows: true,
            restore_delay_ms: 1000,
            max_retry_attempts: 3,
            scan_interval_ms: 5000,
            max_memory_usage_mb: 50,
        }
    }
}

impl Config {
    /// Checks the settings against their bounds, and reports the first that
    /// is out of them.
    pub fn validate(&self) -> (r: Result<(), ConfigError>)
        ensures
            r is Ok <==> self@.fault() is None,
            r matches Err(e) ==> self@.fault() == Some(e),
    {
        if self.restore_delay_ms > MAX_RESTORE_DELAY_MS {
            return Err(ConfigError::RestoreDelayTooLong);
        }
        if self.max_retry_attempts > MAX_RETRY_ATTEMPTS {
            return Err(ConfigError::TooManyRetryAttempts);
        }
        if self.scan_interval_ms == 0 {
            return Err(ConfigError::ScanIntervalZero);
        }
        if self.max_memory_usage_mb == 0 {
            return Err(ConfigError::MemoryLimitZero);
        }
        let ghost entries = identities(self.exclude_apps@);
        let n = self.exclude_apps.len();
        for i in 0..n
            invariant
                n == self.exclude_apps.len(),
                entries == identities(self.exclude_apps@),
                self.restore_delay_ms <= MAX_RESTORE_DELAY_MS,
                self.max_retry_attempts <= MAX_RETRY_ATTEMPTS,
                self.scan_interval_ms != 0,
                self.max_memory_usage_mb != 0,
                first_blank(entries, 0) == first_blank(entries, i as int),
        {
            assert(entries[i as int] == self.exclude_apps[i as int]@);
            if is_blank_str(self.exclude_apps[i].as_str()) {
                return Err(ConfigError::BlankExcludedApp { index: i });
            }
        }
        Ok(())
    }

    /// Whether the application `bundle_id` is excluded.
    pub fn is_app_excluded(&self, bundle_id: &str) -> (r: bool)
        ensures
            r == self@.exclude_apps.contains(bundle_id@),
    {
        let ghost entries = identities(self.exclude_apps@);
        let n = self.exclude_apps.len();
        for i in 0..n
            invariant
                n == self.exclude_apps.len(),
                entries == identities(self.exclude_apps@),
                forall|j: int| 0 <= j < i ==> entries[j] != bundle_id@,
        {
            assert(entries[i as int] == self.exclude_apps[i as int]@);
            if same_text(self.exclude_apps[i].as_str(), bundle_id) {
                return true;
            }
        }
        false
    }

    /// Excludes the application `bundle_id`: it is added at the end of the
    /// list unless it is in it.
    pub fn exclude_app(&mut self, bundle_id: &str)
        ensures
            final(self)@.exclude_apps == if old(self)@.exclude_apps.contains(bundle_id@) {
                old(self)@.exclude_apps
            } else {
                old(self)@.exclude_apps.push(bundle_id@)
            },
            final(self)@ == (ConfigView { exclude_apps: final(self)@.exclude_apps, ..old(self)@ }),
    {
        if !self.is_app_excluded(bundle_id) {
            self.exclude_apps.push(String::from_str(bundle_id));
            assert(identities(self.exclude_apps@) =~= old(self)@.exclude_apps.push(bundle_id@));
        }
    }

    /// Excludes the application `bundle_id` no longer: every entry that
    /// names it leaves the list, and the others keep their order.
    pub fn include_app(&mut self, bundle_id: &str)
        ensures
            final(self)@.exclude_apps == without(old(self)@.exclude_apps, bundle_id@),
            final(self)@ == (ConfigView { exclude_apps: final(self)@.exclude_apps, ..old(self)@ }),
    {
        let ghost entries = identities(self.exclude_apps@);
        let mut kept: Vec<String> = Vec::new();
        let n = self.exclude_apps.len();
        for i in 0..n
            invariant
                n == self.exclude_apps.len(),
                entries == identities(self.exclude_apps@),
                identities(kept@) == without(entries.take(i as int), bundle_id@),
        {
            proof {
                assert(entries.take(i + 1).drop_last() == entries.take(i as int));
                assert(entries.take(i + 1).last() == self.exclude_apps[i as int]@);
            }
            if !same_text(self.exclude_apps[i].as_str(), bundle_id) {
                kept.push(self.exclude_apps[i].clone());
                assert(identities(kept@) =~= without(entries.take(i as int), bundle_id@).push(
                    self.exclude_apps[i as int]@,
                ));
            }
        }
        assert(entries.take(n as int) == entries);
        self.exclude_apps = kept;
    }

    /// Where the settings are kept, part by part: `config.json` in the
    /// directory of the application's data.
    pub fn get_config_path(
        custom: Option<String>,
        user_data_dir: Option<String>,
        current_dir: String,
    ) -> (parts: Vec<String>)
        ensures
            identities(parts@) == data_root_parts(
                text_of(custom),
                text_of(user_data_dir),
                current_dir@,
            ).push("config.json"@),
    {
        data_path(custom, user_data_dir, current_dir, "config.json")
    }
}

} // verus!
