//! Command line of the engine daemon: the defaults derived from the
//! environment, and the options that override them.

use vstd::prelude::*;

use crate::chars::{chars_of, copy_str, str_eq};
use vstd::string::StringExecFns;

verus! {

/// Settings of the daemon.
pub struct DaemonArgs {
    /// Unix socket the daemon listens on.
    pub socket: String,
    /// Directory of the SenseVoice model (`model.int8.onnx`, `tokens.txt`).
    pub sensevoice_dir: String,
    /// The silero VAD model.
    pub vad_model: String,
    /// The replacement dictionary.
    pub replace_file: String,
    /// Decoder threads.
    pub threads: i32,
}

/// Files of a SenseVoice model.
pub struct SenseVoicePaths {
    pub model: String,
    pub tokens: String,
}

impl SenseVoicePaths {
    /// The files of the model kept in `dir`: `model.int8.onnx` and
    /// `tokens.txt`.
    pub fn in_dir(dir: &str) -> (p: Self)
        ensures
            p.model@ == dir@ + "/model.int8.onnx"@,
            p.tokens@ == dir@ + "/tokens.txt"@,
    {
        SenseVoicePaths { model: joined(dir, "/model.int8.onnx"), tokens: joined(dir, "/tokens.txt") }
    }
}

/// Value of a non-empty string of decimal digits.
pub open spec fn digits_value(d: Seq<char>) -> int
    decreases d.len(),
{
    if d.len() == 0 {
        0
    } else {
        10 * digits_value(d.drop_last()) + (d.last() as u32 - 48)
    }
}

pub open spec fn is_digit(c: char) -> bool {
    48 <= (c as u32) <= 57
}

pub open spec fn all_digits(d: Seq<char>) -> bool {
    d.len() > 0 && forall|k: int| 0 <= k < d.len() ==> is_digit(#[trigger] d[k])
}

/// `str::parse::<i32>`: an optional sign, then at least one decimal digit,
/// with the value in range.
pub open spec fn parse_i32_spec(s: Seq<char>) -> Option<i32> {
    let neg = s.len() > 0 && s[0] == '-';
    let d = if s.len() > 0 && (s[0] == '-' || s[0] == '+') {
        s.skip(1)
    } else {
        s
    };
    if !all_digits(d) {
        None
    } else {
        let v = if neg {
            -digits_value(d)
        } else {
            digits_value(d)
        };
        if i32::MIN <= v <= i32::MAX {
            Some(v as i32)
        } else {
            None
        }
    }
}

proof fn lemma_digits_value_grows(d: Seq<char>, k: int)
    requires
        0 <= k <= d.len(),
        forall|m: int| 0 <= m < d.len() ==> is_digit(#[trigger] d[m]),
    ensures
        0 <= digits_value(d.take(k)) <= digits_value(d),
    decreases d.len() - k,
{
    if k < d.len() {
        lemma_digits_value_grows(d, k + 1);
        assert(d.take(k + 1).drop_last() == d.take(k));
    } else {
        assert(d.take(k) == d);
        lemma_digits_value_nonneg(d);
    }
}

proof fn lemma_digits_value_nonneg(d: Seq<char>)
    requires
        forall|m: int| 0 <= m < d.len() ==> is_digit(#[trigger] d[m]),
    ensures
        0 <= digits_value(d),
    decreases d.len(),
{
    if d.len() > 0 {
        assert forall|m: int| 0 <= m < d.drop_last().len() implies is_digit(
            #[trigger] d.drop_last()[m],
        ) by {
            assert(d.drop_last()[m] == d[m]);
        }
        lemma_digits_value_nonneg(d.drop_last());
    }
}

/// Decimal `i32`, as `str::parse::<i32>`.
pub fn parse_i32(s: &str) -> (r: Option<i32>)
    ensures
        r == parse_i32_spec(s@),
{
    let cs = chars_of(s);
    let n = cs.len();
    let neg = n > 0 && cs[0] == '-';
    let start: usize = if n > 0 && (cs[0] == '-' || cs[0] == '+') {
        1
    } else {
        0
    };
    let ghost d = if n > 0 && (s@[0] == '-' || s@[0] == '+') {
        s@.skip(1)
    } else {
        s@
    };
    assert(d == cs@.skip(start as int));
    if start >= n {
        return None;
    }
    let mut acc: u64 = 0;
    let mut i: usize = start;
    while i < n
        invariant
            start <= i <= n,
            n == cs@.len(),
            cs@ == s@,
            d == cs@.skip(start as int),
            d == (if s@.len() > 0 && (s@[0] == '-' || s@[0] == '+') {
                s@.skip(1)
            } else {
                s@
            }),
            acc == digits_value(d.take(i - start)),
            acc <= 2147483648,
            forall|m: int| 0 <= m < i - start ==> is_digit(#[trigger] d[m]),
        decreases n - i,
    {
        let c = cs[i];
        if !((c as u32) >= 48 && (c as u32) <= 57) {
            assert(!is_digit(d[i - start]));
            return None;
        }
        assert(d.take(i - start + 1).drop_last() == d.take(i - start));
        assert(d.take(i - start + 1).last() == c);
        acc = acc * 10 + ((c as u32) - 48) as u64;
        i = i + 1;
        if acc > 2147483648 {
            proof {
                if all_digits(d) {
                    lemma_digits_value_grows(d, i - start);
                }
            }
            return None;
        }
    }
    assert(d.take(n - start) == d);
    if neg {
        Some((0 - (acc as i64)) as i32)
    } else if acc <= 2147483647 {
        Some(acc as i32)
    } else {
        None
    }
}

/// The daemon settings as values: socket, model directory, VAD model,
/// dictionary, threads.
pub type SettingsView = (Seq<char>, Seq<char>, Seq<char>, Seq<char>, i32);

pub open spec fn settings_view(a: DaemonArgs) -> SettingsView {
    (a.socket@, a.sensevoice_dir@, a.vad_model@, a.replace_file@, a.threads)
}

/// The defaults: socket in the runtime directory (`$HOME/.cache` when
/// unset), the model where voxtype keeps it, the VAD model under
/// `models/`, the dictionary in the configuration directory
/// (`$HOME/.config` when unset), 16 threads.
pub open spec fn defaults_view(
    home: Seq<char>,
    runtime_dir: Option<Seq<char>>,
    config_dir: Option<Seq<char>>,
) -> SettingsView {
    let rt = match runtime_dir {
        Some(d) => d,
        None => home + "/.cache"@,
    };
    let cfg = match config_dir {
        Some(d) => d,
        None => home + "/.config"@,
    };
    (
        rt + "/kikitori.sock"@,
        home + "/.local/share/voxtype/models/sensevoice-small"@,
        "models/silero_vad.onnx"@,
        cfg + "/kikitori/replace.tsv"@,
        16,
    )
}

/// The settings that `args` give, read left to right from `cur`, or the
/// message of the first bad argument.
pub open spec fn daemon_settings_from(args: Seq<Seq<char>>, cur: SettingsView) -> Result<
    SettingsView,
    Seq<char>,
>
    decreases args.len(),
{
    if args.len() == 0 {
        Ok(cur)
    } else {
        let a = args[0];
        if a == "--socket"@ || a == "--sensevoice-dir"@ || a == "--vad-model"@ || a == "--replace"@
            || a == "--threads"@ {
            if args.len() < 2 {
                Err(a + " の値がない"@)
            } else {
                let v = args[1];
                let rest = args.skip(2);
                if a == "--socket"@ {
                    daemon_settings_from(rest, (v, cur.1, cur.2, cur.3, cur.4))
                } else if a == "--sensevoice-dir"@ {
                    daemon_settings_from(rest, (cur.0, v, cur.2, cur.3, cur.4))
                } else if a == "--vad-model"@ {
                    daemon_settings_from(rest, (cur.0, cur.1, v, cur.3, cur.4))
                } else if a == "--replace"@ {
                    daemon_settings_from(rest, (cur.0, cur.1, cur.2, v, cur.4))
                } else {
                    match parse_i32_spec(v) {
                        Some(t) => daemon_settings_from(rest, (cur.0, cur.1, cur.2, cur.3, t)),
                        None => Err("--threads は整数"@),
                    }
                }
            }
        } else {
            Err("未知の引数: "@ + a)
        }
    }
}

fn joined(a: &str, b: &str) -> (s: String)
    ensures
        s@ == a@ + b@,
{
    let mut s = copy_str(a);
    s.append(b);
    s
}

/// The default settings, from `$HOME`, `$XDG_RUNTIME_DIR` and
/// `$XDG_CONFIG_HOME`.
pub fn daemon_defaults(home: &str, runtime_dir: Option<String>, config_dir: Option<String>) -> (a:
    DaemonArgs)
    ensures
        settings_view(a) == defaults_view(
            home@,
            crate::endpoint::opt_view(runtime_dir),
            crate::endpoint::opt_view(config_dir),
        ),
{
    let rt = match runtime_dir {
        Some(d) => d,
        None => joined(home, "/.cache"),
    };
    let cfg = match config_dir {
        Some(d) => d,
        None => joined(home, "/.config"),
    };
    DaemonArgs {
        socket: joined(rt.as_str(), "/kikitori.sock"),
        sensevoice_dir: joined(home, "/.local/share/voxtype/models/sensevoice-small"),
        vad_model: String::from_str("models/silero_vad.onnx"),
        replace_file: joined(cfg.as_str(), "/kikitori/replace.tsv"),
        threads: 16,
    }
}

/// Applies the daemon's options (after the program name) to `defaults`.
pub fn parse_daemon_args(args: Vec<String>, defaults: DaemonArgs) -> (r: Result<DaemonArgs, String>)
    ensures
        match daemon_settings_from(crate::cli::args_view(args@), settings_view(defaults)) {
            Ok(v) => r matches Ok(a) && settings_view(a) == v,
            Err(m) => r matches Err(e) && e@ == m,
        },
{
    let ghost all = crate::cli::args_view(args@);
    let mut cur = defaults;
    let mut i: usize = 0;
    assert(all.skip(0) == all);
    while i < args.len()
        invariant
            i <= args@.len(),
            all == crate::cli::args_view(args@),
            daemon_settings_from(all, settings_view(defaults)) == daemon_settings_from(
                all.skip(i as int),
                settings_view(cur),
            ),
        decreases args@.len() - i,
    {
        let a = args[i].as_str();
        let ghost rest = all.skip(i as int);
        assert(rest[0] == a@);
        let is_socket = str_eq(a, "--socket");
        let is_dir = str_eq(a, "--sensevoice-dir");
        let is_vad = str_eq(a, "--vad-model");
        let is_replace = str_eq(a, "--replace");
        let is_threads = str_eq(a, "--threads");
        if !(is_socket || is_dir || is_vad || is_replace || is_threads) {
            return Err(joined("未知の引数: ", a));
        }
        if i + 1 >= args.len() {
            return Err(joined(a, " の値がない"));
        }
        let v = args[i + 1].as_str();
        assert(rest[1] == v@);
        assert(rest.skip(2) == all.skip(i + 2));
        if is_socket {
            cur.socket = copy_str(v);
        } else if is_dir {
            cur.sensevoice_dir = copy_str(v);
        } else if is_vad {
            cur.vad_model = copy_str(v);
        } else if is_replace {
            cur.replace_file = copy_str(v);
        } else {
            match parse_i32(v) {
                Some(t) => cur.threads = t,
                None => return Err(String::from_str("--threads は整数")),
            }
        }
        i = i + 2;
    }
    Ok(cur)
}

} // verus!
