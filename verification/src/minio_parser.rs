//! Tenant records that may live in the session store: where the gateway's
//! own configuration has no record for a tenant, the record is fetched
//! from the store as text, cleaned, and parsed.
//!
//! Fetching and parsing are the caller's part. The functions here say
//! what is to be fetched, clean what came back, and name the failures.

use crate::cache::minio_config_key;
use crate::config::json_config::{MinioConfig, WarpMinioConfig};
use crate::config::MINIO_CONFIG_KEY_PREFIX;
use crate::text::{chars_of, skip_run, slice, strip_leading};
use vstd::prelude::*;
use vstd::string::*;

verus! {

/// Why a tenant has no record.
#[derive(Debug, Clone, Copy, PartialEq, Eq, Structural)]
pub enum ConfigError {
    /// Neither the configuration nor the session store knows the tenant.
    NotFound,
    /// The stored record does not parse.
    Malformed,
}

/// Where the record of a tenant is to be had.
#[derive(Debug)]
pub enum ConfigSource {
    /// The configuration holds it.
    Configured(MinioConfig),
    /// The session store may hold it under this key.
    Stored(String),
}

/// `s` without its trailing run of `c`.
pub open spec fn strip_trailing(s: Seq<char>, c: char) -> Seq<char>
    decreases s.len(),
{
    if s.len() > 0 && s.last() == c {
        strip_trailing(s.drop_last(), c)
    } else {
        s
    }
}

/// `s` with every `\"` replaced by `"`, from left to right.
pub open spec fn unescaped(s: Seq<char>) -> Seq<char>
    decreases s.len(),
{
    if s.len() >= 2 && s[0] == '\\' && s[1] == '"' {
        seq!['"'] + unescaped(s.skip(2))
    } else if s.len() > 0 {
        seq![s[0]] + unescaped(s.skip(1))
    } else {
        Seq::empty()
    }
}

/// A stored record as it is parsed: without the quotes around it, and
/// with its escaped quotes unescaped.
pub open spec fn cleaned(text: Seq<char>) -> Seq<char> {
    unescaped(strip_trailing(strip_leading(text, '"'), '"'))
}

/// If `s` ends with exactly `n` copies of `c`, stripping the run leaves
/// the first `s.len() - n` characters.
pub proof fn lemma_strip_trailing(s: Seq<char>, c: char, n: int)
    requires
        0 <= n <= s.len(),
        forall|i: int| s.len() - n <= i < s.len() ==> s[i] == c,
        n == s.len() || s[s.len() - n - 1] != c,
    ensures
        strip_trailing(s, c) == s.take(s.len() - n),
    decreases n,
{
    if n == 0 {
        assert(s.take(s.len() as int) == s);
    } else {
        let t = s.drop_last();
        lemma_strip_trailing(t, c, n - 1);
        assert(t.take(t.len() - (n - 1)) == s.take(s.len() - n));
    }
}

/// The record of `config_key` in the configuration.
pub fn get_config_by_json_key(config: &WarpMinioConfig, config_key: &str) -> (r: Option<MinioConfig>)
    ensures
        r == config.record(config_key@),
{
    match &config.power {
        Some(power) => match power.get(config_key) {
            Some(record) => Some(record.clone()),
            None => None,
        },
        None => None,
    }
}

/// Where the record of `config_key` is to be had: in the configuration,
/// or else in the session store under the tenant's key.
pub fn config_source(config: &WarpMinioConfig, config_key: &str) -> (r: ConfigSource)
    ensures
        match config.record(config_key@) {
            Some(record) => r == ConfigSource::Configured(record),
            None => r matches ConfigSource::Stored(key) && key@ == MINIO_CONFIG_KEY_PREFIX@
                + config_key@,
        },
{
    match get_config_by_json_key(config, config_key) {
        Some(record) => ConfigSource::Configured(record),
        None => ConfigSource::Stored(minio_config_key(config_key)),
    }
}

/// `text` with every `\"` replaced by `"`.
pub fn unescape(text: &str) -> (r: String)
    ensures
        r@ == unescaped(text@),
{
    let chars = chars_of(text);
    let n = chars.len();
    let mut out = String::new();
    let mut from: usize = 0;
    let mut i: usize = 0;
    assert(text@.subrange(0, 0) =~= Seq::<char>::empty());
    assert(text@.skip(0) =~= text@);
    while i < n
        invariant
            chars@ == text@,
            n == chars@.len(),
            from <= i <= n,
            unescaped(text@) == out@ + text@.subrange(from as int, i as int) + unescaped(
                text@.skip(i as int),
            ),
        decreases n - i,
    {
        let ghost rest = text@.skip(i as int);
        let ghost seen = out@ + text@.subrange(from as int, i as int);
        if i + 1 < n && chars[i] == '\\' && chars[i + 1] == '"' {
            let piece = slice(text, from, i);
            out.append(piece.as_str());
            out.append("\"");
            proof {
                reveal_strlit("\"");
                assert(rest.skip(2) =~= text@.skip(i + 2));
                assert(out@ =~= seen + seq!['"']);
                assert(text@.subrange(i + 2, i + 2) =~= Seq::<char>::empty());
                assert(seen + (seq!['"'] + unescaped(rest.skip(2))) =~= out@ + text@.subrange(
                    i + 2,
                    i + 2,
                ) + unescaped(text@.skip(i + 2)));
            }
            i += 2;
            from = i;
        } else {
            proof {
                assert(rest.skip(1) =~= text@.skip(i + 1));
                assert(rest[0] == text@[i as int]);
                assert(seen + (seq![rest[0]] + unescaped(rest.skip(1))) =~= out@
                    + text@.subrange(from as int, i + 1) + unescaped(text@.skip(i + 1)));
            }
            i += 1;
        }
    }
    let piece = slice(text, from, n);
    out.append(piece.as_str());
    proof {
        assert(text@.skip(n as int) =~= Seq::<char>::empty());
        assert(out@ =~= unescaped(text@));
    }
    out
}

/// A stored record made ready for parsing.
pub fn clean_stored_config(text: &str) -> (r: String)
    ensures
        r@ == cleaned(text@),
{
    let chars = chars_of(text);
    let n = chars.len();
    let start = skip_run(&chars, 0, '"');
    let mut end: usize = n;
    while end > start && chars[end - 1] == '"'
        invariant
            start <= end <= n,
            n == chars@.len(),
            forall|j: int| end <= j < n ==> chars@[j] == '"',
        decreases end,
    {
        end -= 1;
    }
    let inner = slice(text, start, end);
    proof {
        assert(text@.skip(0) =~= text@);
        let lead = text@.skip(start as int);
        assert(strip_leading(text@, '"') == lead);
        lemma_strip_trailing(lead, '"', n - end);
        assert(lead.take(lead.len() - (n - end)) =~= inner@);
    }
    unescape(inner.as_str())
}

/// What the session store gave for a tenant's key: the record's text,
/// ready for parsing, or the failure to find a record.
pub fn stored_config_fetched(reply: Option<String>) -> (r: Result<String, ConfigError>)
    ensures
        match reply {
            Some(text) => r matches Ok(ready) && ready@ == cleaned(text@),
            None => r == Err::<String, ConfigError>(ConfigError::NotFound),
        },
{
    match reply {
        Some(text) => Ok(clean_stored_config(text.as_str())),
        None => Err(ConfigError::NotFound),
    }
}

/// What parsing a stored record gave: the record, or the failure to
/// parse it.
pub fn stored_config_parsed<E>(parsed: Result<MinioConfig, E>) -> (r: Result<MinioConfig, ConfigError>)
    ensures
        match parsed {
            Ok(record) => r == Ok::<MinioConfig, ConfigError>(record),
            Err(_) => r == Err::<MinioConfig, ConfigError>(ConfigError::Malformed),
        },
{
    match parsed {
        Ok(record) => Ok(record),
        Err(_) => Err(ConfigError::Malformed),
    }
}

} // verus!
