//! Settings resolved from the command line, the environment and the
//! configuration file, in that order of precedence; and the stdin limit.
use vstd::prelude::*;
use crate::numbers::{decimal, decimal_string, parse_i32, parse_i32_spec, parse_usize, parse_usize_spec};
use crate::text::{chars_of, decode_utf8_bytes};
use crate::diagram_model::MermaidOptions;
use vstd::string::StringExecFns;

verus! {

/// Largest document read from stdin, in bytes.
pub const MAX_STDIN_BYTES: usize = 8 * 1024 * 1024;

/// Characters the tab title spends before the file name.
pub const LEAF_TAB_PREFIX_LEN: usize = 6;

/// Shortest tab title length accepted (besides -1, no limit).
pub const MIN_TAB_TITLE_LENGTH: i32 = 20;

/// Longest file history.
pub const FILE_HISTORY_LENGTH_MAX: i32 = 50;

/// How many bytes to read from stdin: one more than the limit, so that an
/// oversized input is noticed.
pub fn stdin_read_limit(max_bytes: usize) -> (r: Result<u64, String>)
    ensures
        max_bytes < u64::MAX ==> r == Ok::<u64, String>((max_bytes + 1) as u64),
        max_bytes >= u64::MAX ==> (r matches Err(e) && e@ == "stdin size limit is too large"@),
{
    let m = max_bytes as u64;
    if m == u64::MAX {
        return Err(String::from_str("stdin size limit is too large"));
    }
    Ok(m + 1)
}

pub open spec fn stdin_too_large(max_bytes: usize) -> Seq<char> {
    "stdin exceeds the maximum supported size of "@ + decimal(max_bytes as nat) + " bytes"@
}

/// The document read from stdin: refused beyond `max_bytes` or when it is
/// not UTF-8.
pub fn read_stdin_limited(buf: Vec<u8>, max_bytes: usize) -> (r: Result<String, String>)
    ensures
        buf@.len() > max_bytes ==> (r matches Err(e) && e@ == stdin_too_large(max_bytes)),
        buf@.len() <= max_bytes && vstd::utf8::valid_utf8(buf@) ==> (r matches Ok(s) && s@
            == vstd::utf8::decode_utf8(buf@)),
        buf@.len() <= max_bytes && !vstd::utf8::valid_utf8(buf@) ==> (r matches Err(e) && e@
            == "stdin is not valid UTF-8"@),
{
    if buf.len() > max_bytes {
        let mut m = String::from_str("stdin exceeds the maximum supported size of ");
        let d = decimal_string(max_bytes);
        m.append(d.as_str());
        m.append(" bytes");
        return Err(m);
    }
    match decode_utf8_bytes(buf) {
        Some(s) => Ok(s),
        None => Err(String::from_str("stdin is not valid UTF-8")),
    }
}

/// The content width: the command line, else `LEAF_WIDTH` when it is a
/// number of at least 20, else the configuration (raised to 20).
pub open spec fn configured_width(cli: Option<usize>, env: Option<Seq<char>>, config: Option<usize>) -> Option<usize> {
    if cli is Some {
        cli
    } else if (env matches Some(e) && parse_usize_spec(e) matches Some(w) && w >= 20) {
        parse_usize_spec(env->0)
    } else {
        match config {
            Some(w) => Some(if w > 20 { w } else { 20usize }),
            None => None,
        }
    }
}

pub fn resolve_configured_width(cli_width: Option<usize>, env_width: Option<String>, config_width: Option<usize>) -> (r: Option<usize>)
    ensures
        r == configured_width(
            cli_width,
            match env_width {
                Some(e) => Some(e@),
                None => None,
            },
            config_width,
        ),
{
    if let Some(w) = cli_width {
        return Some(w);
    }
    if let Some(val) = &env_width {
        let cs = chars_of(val.as_str());
        if let Some(w) = parse_usize(cs.as_slice()) {
            if w >= 20 {
                return Some(w);
            }
        }
    }
    match config_width {
        Some(w) => Some(if w > 20 { w } else { 20 }),
        None => None,
    }
}

/// Line numbers in code blocks: `LEAF_CODE_LINE_NUMBERS` of `1` or `0`
/// decides, else the configuration, else on.
pub open spec fn code_line_numbers(env: Option<Seq<char>>, config: Option<bool>) -> bool {
    if env == Some("1"@) {
        true
    } else if env == Some("0"@) {
        false
    } else {
        match config {
            Some(b) => b,
            None => true,
        }
    }
}

pub fn resolve_code_line_numbers(env_value: Option<String>, config_value: Option<bool>) -> (r: bool)
    ensures
        r == code_line_numbers(
            match env_value {
                Some(e) => Some(e@),
                None => None,
            },
            config_value,
        ),
{
    if let Some(val) = &env_value {
        let cs = chars_of(val.as_str());
        if crate::text::is_lit(cs.as_slice(), "1") {
            return true;
        }
        if crate::text::is_lit(cs.as_slice(), "0") {
            return false;
        }
    }
    match config_value {
        Some(b) => b,
        None => true,
    }
}

pub open spec fn valid_tab_title_length(n: i32) -> bool {
    n == -1 || n >= MIN_TAB_TITLE_LENGTH
}

/// A tab title length: -1 (no limit) or at least 20.
pub fn is_valid_tab_title_length(n: i32) -> (r: bool)
    ensures
        r == valid_tab_title_length(n),
{
    n == -1 || n >= MIN_TAB_TITLE_LENGTH
}

/// The tab title length: `LEAF_TAB_TITLE_LENGTH` when valid, else the
/// configuration (default -1) when valid.
pub open spec fn tab_title_length(env: Option<Seq<char>>, config: Option<i32>) -> Option<i32> {
    if (env matches Some(e) && parse_i32_spec(e) matches Some(n) && valid_tab_title_length(n)) {
        parse_i32_spec(env->0)
    } else {
        let n = match config {
            Some(c) => c,
            None => -1i32,
        };
        if valid_tab_title_length(n) {
            Some(n)
        } else {
            None
        }
    }
}

pub fn resolve_tab_title_length_n(env_value: Option<String>, config_value: Option<i32>) -> (r: Option<i32>)
    ensures
        r == tab_title_length(
            match env_value {
                Some(e) => Some(e@),
                None => None,
            },
            config_value,
        ),
{
    if let Some(val) = &env_value {
        let cs = chars_of(val.as_str());
        if let Some(n) = parse_i32(cs.as_slice()) {
            if is_valid_tab_title_length(n) {
                return Some(n);
            }
        }
    }
    let n = match config_value {
        Some(c) => c,
        None => -1,
    };
    if is_valid_tab_title_length(n) {
        Some(n)
    } else {
        None
    }
}

/// Room left for the file name in a tab title of length `n` after a
/// prefix; none for -1 (no limit).
pub fn max_filename_len_for_prefix(n: i32, prefix_len: usize) -> (r: Option<usize>)
    ensures
        n >= MIN_TAB_TITLE_LENGTH ==> r == Some(if n >= prefix_len { (n - prefix_len) as usize } else { 0usize }),
        n < MIN_TAB_TITLE_LENGTH ==> r is None,
{
    if n >= MIN_TAB_TITLE_LENGTH {
        let m = n as usize;
        Some(if m >= prefix_len {
            m - prefix_len
        } else {
            0
        })
    } else {
        None
    }
}

/// Room for the file name in a leaf tab title of length `n`.
pub fn tab_title_n_to_max_filename_len(n: i32) -> (r: Option<usize>)
    ensures
        n >= MIN_TAB_TITLE_LENGTH ==> r == Some((n - LEAF_TAB_PREFIX_LEN) as usize),
        n < MIN_TAB_TITLE_LENGTH ==> r is None,
{
    max_filename_len_for_prefix(n, LEAF_TAB_PREFIX_LEN)
}

/// The file history length in effect, and the configured value when it
/// was capped.
pub fn effective_file_history_length(raw: i32) -> (r: (Option<i32>, Option<i32>))
    ensures
        raw > FILE_HISTORY_LENGTH_MAX ==> r == (Some(FILE_HISTORY_LENGTH_MAX), Some(raw)),
        0 < raw <= FILE_HISTORY_LENGTH_MAX ==> r == (Some(raw), None::<i32>),
        raw <= 0 ==> r == (None::<i32>, None::<i32>),
{
    if raw > FILE_HISTORY_LENGTH_MAX {
        (Some(FILE_HISTORY_LENGTH_MAX), Some(raw))
    } else if raw > 0 {
        (Some(raw), None)
    } else {
        (None, None)
    }
}

/// Adds a configuration warning, separated from earlier ones by `"; "`.
pub fn append_config_warning(warning: &mut Option<String>, next: Option<String>)
    ensures
        match next {
            None => *final(warning) == *old(warning),
            Some(n) => match *old(warning) {
                Some(w) => (*final(warning) matches Some(f) && f@ == w@ + "; "@ + n@),
                None => *final(warning) == Some(n),
            },
        },
{
    let next = match next {
        Some(n) => n,
        None => {
            return;
        },
    };
    match warning.take() {
        Some(mut existing) => {
            existing.append("; ");
            existing.append(next.as_str());
            *warning = Some(existing);
        },
        None => {
            *warning = Some(next);
        },
    }
}

/// The first value given, in order of precedence: command line,
/// environment, configuration file, default.
pub open spec fn spacing_choice(cli: Option<u64>, env: Option<u64>, config: Option<u64>, default: u64) -> u64 {
    match cli {
        Some(v) => v,
        None => match env {
            Some(v) => v,
            None => match config {
                Some(v) => v,
                None => default,
            },
        },
    }
}

/// One spacing field: the command line wins over the environment, which
/// wins over the configuration file, which wins over the default. Values
/// are `f64` bit patterns; invalid environment or configuration values
/// arrive here as `None`.
pub fn resolve_spacing(cli: Option<u64>, env: Option<u64>, config: Option<u64>, default: u64) -> (r: u64)
    ensures
        r == spacing_choice(cli, env, config, default),
{
    match cli {
        Some(v) => v,
        None => match env {
            Some(v) => v,
            None => match config {
                Some(v) => v,
                None => default,
            },
        },
    }
}

/// The three spacings, each field resolved on its own (node, rank, edge).
pub fn resolve_mermaid_options(
    cli: (Option<u64>, Option<u64>, Option<u64>),
    env: (Option<u64>, Option<u64>, Option<u64>),
    config: (Option<u64>, Option<u64>, Option<u64>),
) -> (r: MermaidOptions)
    ensures
        r.node_spacing_bits == spacing_choice(cli.0, env.0, config.0, MermaidOptions::spec_configured_default().node_spacing_bits),
        r.rank_spacing_bits == spacing_choice(cli.1, env.1, config.1, MermaidOptions::spec_configured_default().rank_spacing_bits),
        r.edge_spacing_bits == spacing_choice(cli.2, env.2, config.2, MermaidOptions::spec_configured_default().edge_spacing_bits),
{
    let d = MermaidOptions::configured_default();
    MermaidOptions {
        node_spacing_bits: resolve_spacing(cli.0, env.0, config.0, d.node_spacing_bits),
        rank_spacing_bits: resolve_spacing(cli.1, env.1, config.1, d.rank_spacing_bits),
        edge_spacing_bits: resolve_spacing(cli.2, env.2, config.2, d.edge_spacing_bits),
    }
}

} // verus!
