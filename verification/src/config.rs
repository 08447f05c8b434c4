use crate::text::{lemma_trimmed_empty, trim, trimmed};
use vstd::prelude::*;

verus! {

/// One monitored API key and its display alias.
#[derive(Debug)]
pub struct KeyConfig {
    pub alias: String,
    pub api_key: String,
}

impl KeyConfig {
    /// A field-by-field copy.
    pub fn duplicate(&self) -> (r: KeyConfig)
        ensures
            r == *self,
    {
        KeyConfig { alias: self.alias.clone(), api_key: self.api_key.clone() }
    }
}

/// The configuration file's contents.
#[derive(Debug)]
pub struct AppConfig {
    pub keys: Vec<KeyConfig>,
    pub poll_interval_secs: u64,
    pub log_retention_days: u64,
}

/// Polling interval used when the configuration gives none.
pub const DEFAULT_POLL_INTERVAL_SECS: u64 = 60;

/// Log retention used when the configuration gives none.
pub const DEFAULT_RETENTION_DAYS: u64 = 7;

impl Default for AppConfig {
    fn default() -> (c: AppConfig)
        ensures
            c.keys@.len() == 0,
            c.poll_interval_secs == DEFAULT_POLL_INTERVAL_SECS,
            c.log_retention_days == DEFAULT_RETENTION_DAYS,
    {
        AppConfig {
            keys: Vec::new(),
            poll_interval_secs: DEFAULT_POLL_INTERVAL_SECS,
            log_retention_days: DEFAULT_RETENTION_DAYS,
        }
    }
}

/// Why a command refused its input.
#[derive(Debug, Clone, Copy, PartialEq, Eq, Structural)]
pub enum CommandError {
    EmptyAlias,
    EmptyApiKey,
    DuplicateAlias,
    UnknownKey,
    UnsupportedRetention,
}

impl CommandError {
    /// The message returned to the front end.
    pub fn text(&self) -> (s: &'static str)
        ensures
            s@ == match *self {
                CommandError::EmptyAlias => "别名不能为空"@,
                CommandError::EmptyApiKey => "api_key 不能为空"@,
                CommandError::DuplicateAlias => "别名已存在"@,
                CommandError::UnknownKey => "key 不存在"@,
                CommandError::UnsupportedRetention => "保留天数仅支持 7 或 30"@,
            },
    {
        match self {
            CommandError::EmptyAlias => "别名不能为空",
            CommandError::EmptyApiKey => "api_key 不能为空",
            CommandError::DuplicateAlias => "别名已存在",
            CommandError::UnknownKey => "key 不存在",
            CommandError::UnsupportedRetention => "保留天数仅支持 7 或 30",
        }
    }
}

/// Checks a new key's input: both texts are trimmed, and neither may be empty
/// after trimming (the alias is checked first).
pub fn prepare_key(alias: &str, api_key: &str) -> (r: Result<KeyConfig, CommandError>)
    ensures
        trimmed(alias@).len() == 0 ==> r == Err::<KeyConfig, CommandError>(CommandError::EmptyAlias),
        trimmed(alias@).len() > 0 && trimmed(api_key@).len() == 0 ==> r == Err::<
            KeyConfig,
            CommandError,
        >(CommandError::EmptyApiKey),
        trimmed(alias@).len() > 0 && trimmed(api_key@).len() > 0 ==> (r matches Ok(k) && k.alias@
            == trimmed(alias@) && k.api_key@ == trimmed(api_key@)),
{
    let a = trim(alias);
    if a.unicode_len() == 0 {
        return Err(CommandError::EmptyAlias);
    }
    let k = trim(api_key);
    if k.unicode_len() == 0 {
        return Err(CommandError::EmptyApiKey);
    }
    Ok(KeyConfig { alias: String::from_str(a), api_key: String::from_str(k) })
}

/// Whether an alias is blank: empty or white space only.
pub proof fn law_blank_alias_is_refused(alias: Seq<char>)
    ensures
        (trimmed(alias).len() == 0) <==> (forall|i: int|
            0 <= i < alias.len() ==> crate::text::is_white_space(#[trigger] alias[i])),
{
    lemma_trimmed_empty(alias);
}

/// The keys whose alias differs from `alias`, in their order.
pub open spec fn keys_without(keys: Seq<KeyConfig>, alias: Seq<char>) -> Seq<KeyConfig>
    decreases keys.len(),
{
    if keys.len() == 0 {
        keys
    } else if keys.last().alias@ == alias {
        keys_without(keys.drop_last(), alias)
    } else {
        keys_without(keys.drop_last(), alias).push(keys.last())
    }
}

/// Some key has this alias.
pub open spec fn has_key_alias(keys: Seq<KeyConfig>, alias: Seq<char>) -> bool {
    exists|i: int| 0 <= i < keys.len() && (#[trigger] keys[i]).alias@ == alias
}

/// Removing an alias that no key has changes nothing.
pub proof fn lemma_keys_without_absent(keys: Seq<KeyConfig>, alias: Seq<char>)
    requires
        !has_key_alias(keys, alias),
    ensures
        keys_without(keys, alias) == keys,
    decreases keys.len(),
{
    if keys.len() > 0 {
        assert(keys.last() == keys[keys.len() - 1]);
        assert(!has_key_alias(keys.drop_last(), alias)) by {
            if has_key_alias(keys.drop_last(), alias) {
                let i = choose|i: int|
                    0 <= i < keys.drop_last().len() && (#[trigger] keys.drop_last()[i]).alias@
                        == alias;
                assert(keys[i] == keys.drop_last()[i]);
            }
        }
        lemma_keys_without_absent(keys.drop_last(), alias);
        assert(keys.drop_last().push(keys.last()) =~= keys);
    }
}

impl AppConfig {
    /// Adds a key unless its alias is already taken.
    pub fn add_key(&mut self, key: KeyConfig) -> (r: Result<(), CommandError>)
        ensures
            has_key_alias(old(self).keys@, key.alias@) ==> r == Err::<(), CommandError>(
                CommandError::DuplicateAlias,
            ) && final(self).keys@ == old(self).keys@,
            !has_key_alias(old(self).keys@, key.alias@) ==> r is Ok && final(self).keys@ == old(
                self,
            ).keys@.push(key),
            final(self).poll_interval_secs == old(self).poll_interval_secs,
            final(self).log_retention_days == old(self).log_retention_days,
    {
        let n = self.keys.len();
        let mut i: usize = 0;
        while i < n
            invariant
                n == self.keys@.len(),
                i <= n,
                forall|k: int| 0 <= k < i ==> (#[trigger] self.keys@[k]).alias@ != key.alias@,
            decreases n - i,
        {
            if self.keys[i].alias == key.alias {
                return Err(CommandError::DuplicateAlias);
            }
            i = i + 1;
        }
        self.keys.push(key);
        Ok(())
    }

    /// Drops every key with this alias, keeping the others in order.
    pub fn remove_key(&mut self, alias: &str)
        ensures
            final(self).keys@ == keys_without(old(self).keys@, alias@),
            final(self).poll_interval_secs == old(self).poll_interval_secs,
            final(self).log_retention_days == old(self).log_retention_days,
    {
        let target = String::from_str(alias);
        let mut old_keys: Vec<KeyConfig> = Vec::new();
        std::mem::swap(&mut old_keys, &mut self.keys);
        let ghost ks = old_keys@;
        let mut kept: Vec<KeyConfig> = Vec::new();
        let mut i: usize = 0;
        while i < old_keys.len()
            invariant
                ks == old_keys@,
                i <= ks.len(),
                target@ == alias@,
                kept@ == keys_without(ks.subrange(0, i as int), alias@),
            decreases ks.len() - i,
        {
            assert(ks.subrange(0, i + 1).drop_last() =~= ks.subrange(0, i as int));
            if old_keys[i].alias != target {
                kept.push(old_keys[i].duplicate());
            }
            i = i + 1;
        }
        assert(ks.subrange(0, i as int) =~= ks);
        self.keys = kept;
    }

    /// Sets the log retention; only 7 and 30 days are offered (see `check_retention`).
    pub fn set_retention(&mut self, days: u64) -> (r: Result<(), CommandError>)
        ensures
            (days == 7 || days == 30) ==> r is Ok && final(self).log_retention_days == days,
            !(days == 7 || days == 30) ==> r == Err::<(), CommandError>(
                CommandError::UnsupportedRetention,
            ) && final(self).log_retention_days == old(self).log_retention_days,
            final(self).keys@ == old(self).keys@,
            final(self).poll_interval_secs == old(self).poll_interval_secs,
    {
        match check_retention(days) {
            Ok(d) => {
                self.log_retention_days = d;
                Ok(())
            },
            Err(e) => Err(e),
        }
    }
}

/// Only 7 and 30 days of log retention are offered.
pub fn check_retention(days: u64) -> (r: Result<u64, CommandError>)
    ensures
        (days == 7 || days == 30) ==> r == Ok::<u64, CommandError>(days),
        !(days == 7 || days == 30) ==> r == Err::<u64, CommandError>(
            CommandError::UnsupportedRetention,
        ),
{
    if days != 7 && days != 30 {
        Err(CommandError::UnsupportedRetention)
    } else {
        Ok(days)
    }
}

/// A key that was just added is gone again once its alias is removed.
pub proof fn law_add_then_remove(keys: Seq<KeyConfig>, key: KeyConfig)
    requires
        !has_key_alias(keys, key.alias@),
    ensures
        keys_without(keys.push(key), key.alias@) == keys,
{
    assert(keys.push(key).drop_last() =~= keys);
    lemma_keys_without_absent(keys, key.alias@);
}

} // verus!
