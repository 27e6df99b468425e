//! Command lines of the two wav-streaming tools.

use vstd::prelude::*;

use crate::chars::{copy_str, str_eq};
use crate::cli::args_view;
use crate::endpoint::opt_view;
use vstd::string::StringExecFns;

verus! {

/// Settings of the segmenter tool: model directory, VAD model, wav files.
pub struct ParityArgs {
    pub sensevoice_dir: String,
    pub vad_model: String,
    pub wavs: Vec<String>,
}

pub open spec fn texts(v: Seq<String>) -> Seq<Seq<char>> {
    v.map_values(|s: String| s@)
}

/// The settings that `args` give, read left to right from `(dir, vad,
/// wavs)`: `--sensevoice-dir` and `--vad-model` take the next argument;
/// any other argument is a wav file. The message of an option without its
/// value otherwise.
pub open spec fn parity_from(
    args: Seq<Seq<char>>,
    dir: Seq<char>,
    vad: Seq<char>,
    wavs: Seq<Seq<char>>,
) -> Result<(Seq<char>, Seq<char>, Seq<Seq<char>>), Seq<char>>
    decreases args.len(),
{
    if args.len() == 0 {
        Ok((dir, vad, wavs))
    } else {
        let a = args[0];
        if a == "--sensevoice-dir"@ {
            if args.len() < 2 {
                Err("--sensevoice-dir の値"@)
            } else {
                parity_from(args.skip(2), args[1], vad, wavs)
            }
        } else if a == "--vad-model"@ {
            if args.len() < 2 {
                Err("--vad-model の値"@)
            } else {
                parity_from(args.skip(2), dir, args[1], wavs)
            }
        } else {
            parity_from(args.skip(1), dir, vad, wavs.push(a))
        }
    }
}

/// The message when no wav file is given.
pub open spec fn no_wav_message() -> Seq<char> {
    "wav ファイルを指定してください"@
}

/// Reads the segmenter tool's arguments (after the program name), with
/// `default_dir` as the model directory unless one is given, and
/// `models/silero_vad.onnx` as the VAD model. At least one wav file is
/// needed.
pub fn parse_parity_args(args: Vec<String>, default_dir: String) -> (r: Result<ParityArgs, String>)
    ensures
        match parity_from(args_view(args@), default_dir@, "models/silero_vad.onnx"@, Seq::empty()) {
            Ok((dir, vad, wavs)) => if wavs.len() == 0 {
                r matches Err(m) && m@ == no_wav_message()
            } else {
                r matches Ok(p) && p.sensevoice_dir@ == dir && p.vad_model@ == vad && texts(p.wavs@)
                    == wavs
            },
            Err(m) => r matches Err(e) && e@ == m,
        },
{
    let ghost all = args_view(args@);
    let mut dir = default_dir;
    let mut vad = String::from_str("models/silero_vad.onnx");
    let mut wavs: Vec<String> = Vec::new();
    let mut i: usize = 0;
    assert(all.skip(0) == all);
    assert(texts(wavs@) =~= Seq::<Seq<char>>::empty());
    while i < args.len()
        invariant
            i <= args@.len(),
            all == args_view(args@),
            parity_from(all, default_dir@, "models/silero_vad.onnx"@, Seq::empty()) == parity_from(
                all.skip(i as int),
                dir@,
                vad@,
                texts(wavs@),
            ),
        decreases args@.len() - i,
    {
        let a = args[i].as_str();
        let ghost rest = all.skip(i as int);
        assert(rest[0] == a@);
        if str_eq(a, "--sensevoice-dir") {
            if i + 1 >= args.len() {
                return Err(String::from_str("--sensevoice-dir の値"));
            }
            assert(rest[1] == args@[i + 1]@);
            assert(rest.skip(2) == all.skip(i + 2));
            dir = copy_str(args[i + 1].as_str());
            i = i + 2;
        } else if str_eq(a, "--vad-model") {
            if i + 1 >= args.len() {
                return Err(String::from_str("--vad-model の値"));
            }
            assert(rest[1] == args@[i + 1]@);
            assert(rest.skip(2) == all.skip(i + 2));
            vad = copy_str(args[i + 1].as_str());
            i = i + 2;
        } else {
            assert(rest.skip(1) == all.skip(i + 1));
            let ghost before = texts(wavs@);
            wavs.push(copy_str(a));
            assert(texts(wavs@) =~= before.push(a@));
            i = i + 1;
        }
    }
    if wavs.len() == 0 {
        return Err(String::from_str("wav ファイルを指定してください"));
    }
    Ok(ParityArgs { sensevoice_dir: dir, vad_model: vad, wavs })
}

/// The daemon tool's arguments split at the first `--socket`: its value,
/// and the other arguments in order; `None` when `--socket` comes last.
pub open spec fn split_socket(args: Seq<Seq<char>>) -> Option<(Option<Seq<char>>, Seq<Seq<char>>)>
    decreases args.len(),
{
    if args.len() == 0 {
        Some((None, Seq::empty()))
    } else if args[0] == "--socket"@ {
        if args.len() < 2 {
            None
        } else {
            Some((Some(args[1]), args.skip(2)))
        }
    } else {
        match split_socket(args.skip(1)) {
            Some((s, rest)) => Some((s, seq![args[0]] + rest)),
            None => None,
        }
    }
}

/// Settings of the daemon tool: the engine socket if given, and the wav
/// files.
pub struct WavClientArgs {
    pub socket: Option<String>,
    pub wavs: Vec<String>,
}

/// Reads the daemon tool's arguments (after the program name): the first
/// `--socket` takes the next argument as the engine socket; the other
/// arguments are wav files, of which at least one is needed.
pub fn parse_wavclient_args(args: Vec<String>) -> (r: Result<WavClientArgs, String>)
    ensures
        match split_socket(args_view(args@)) {
            Some((socket, wavs)) => if wavs.len() == 0 {
                r matches Err(m) && m@ == no_wav_message()
            } else {
                r matches Ok(w) && opt_view(w.socket) == socket && texts(w.wavs@) == wavs
            },
            None => r matches Err(m) && m@ == "--socket の値がない"@,
        },
{
    let ghost all = args_view(args@);
    let mut socket: Option<String> = None;
    let mut wavs: Vec<String> = Vec::new();
    let mut i: usize = 0;
    assert(all.skip(0) == all);
    assert(texts(wavs@) =~= Seq::<Seq<char>>::empty());
    // before the first `--socket`, every argument is a wav file
    while i < args.len()
        invariant
            i <= args@.len(),
            all == args_view(args@),
            socket is None,
            split_socket(all) == match split_socket(all.skip(i as int)) {
                Some((s, rest)) => Some((s, texts(wavs@) + rest)),
                None => None::<(Option<Seq<char>>, Seq<Seq<char>>)>,
            },
        decreases args@.len() - i,
    {
        let a = args[i].as_str();
        let ghost rest = all.skip(i as int);
        assert(rest[0] == a@);
        if str_eq(a, "--socket") {
            if i + 1 >= args.len() {
                return Err(String::from_str("--socket の値がない"));
            }
            assert(rest[1] == args@[i + 1]@);
            assert(rest.skip(2) == all.skip(i + 2));
            socket = Some(copy_str(args[i + 1].as_str()));
            let mut j: usize = i + 2;
            let ghost head = texts(wavs@);
            assert(all.skip(i + 2).take(0) =~= Seq::<Seq<char>>::empty());
            while j < args.len()
                invariant
                    i + 2 <= j <= args@.len(),
                    all == args_view(args@),
                    texts(wavs@) == head + all.skip(i + 2).take(j - (i + 2)),
                decreases args@.len() - j,
            {
                let ghost before = texts(wavs@);
                wavs.push(copy_str(args[j].as_str()));
                assert(all.skip(i + 2).take(j + 1 - (i + 2)) =~= all.skip(i + 2).take(j - (i + 2)).push(
                    args@[j as int]@,
                ));
                assert(texts(wavs@) =~= before.push(args@[j as int]@));
                j = j + 1;
            }
            assert(all.skip(i + 2).take(args@.len() - (i + 2)) =~= all.skip(i + 2));
            if wavs.len() == 0 {
                return Err(String::from_str("wav ファイルを指定してください"));
            }
            return Ok(WavClientArgs { socket, wavs });
        }
        assert(rest.skip(1) == all.skip(i + 1));
        let ghost before = texts(wavs@);
        wavs.push(copy_str(a));
        assert(texts(wavs@) =~= before.push(a@));
        proof {
            match split_socket(all.skip(i + 1)) {
                Some((s, r2)) => {
                    assert(before + (seq![a@] + r2) =~= before.push(a@) + r2);
                },
                None => {},
            }
        }
        i = i + 1;
    }
    assert(all.skip(i as int) =~= Seq::<Seq<char>>::empty());
    assert(texts(wavs@) + Seq::<Seq<char>>::empty() =~= texts(wavs@));
    if wavs.len() == 0 {
        return Err(String::from_str("wav ファイルを指定してください"));
    }
    Ok(WavClientArgs { socket, wavs })
}

} // verus!
