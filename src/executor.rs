use vstd::prelude::*;

use crate::decision::ConversionPlan;
use crate::format::SupportedAudioFormat;
use crate::text::{decimal, decimal_string};

verus! {

/// Why the encoder did not produce the output file.
#[derive(Clone, Debug)]
pub enum EncodeError {
    /// The encoder ran and ended without success; `code` is its exit status, if it exited.
    NonZeroExit { code: Option<i32>, diagnostics: String },
    /// The encoder could not be started.
    SpawnFailure(String),
}

/// The encoder option that sets the output's bit depth (AIFF) or bit rate (MP3).
pub open spec fn bit_flag(container: SupportedAudioFormat) -> Seq<char> {
    if container == SupportedAudioFormat::AIFF {
        "-sample_fmt"@
    } else {
        "-b:a"@
    }
}

/// The value of that option: a sample format such as `s16`, or a bit rate in bits per second.
pub open spec fn bit_value(plan: ConversionPlan) -> Seq<char> {
    if plan.container == SupportedAudioFormat::AIFF {
        seq!['s'] + decimal(plan.bit_info as nat)
    } else {
        decimal(plan.bit_info as nat)
    }
}

/// The encoder's arguments for converting `source` as `plan` says: overwrite the output, read
/// `source`, encode with the plan's codec and sample rate, write embedded metadata marking the
/// file as ready and, where the plan has one, the tag reset entry, set the bit depth or rate,
/// and write to the plan's output path.
pub open spec fn encode_arguments(source: Seq<char>, plan: ConversionPlan) -> Seq<Seq<char>> {
    let head = seq![
        "-y"@,
        "-i"@,
        source,
        "-acodec"@,
        plan.codec@,
        "-ar"@,
        decimal(plan.sample_rate as nat),
        "-write_id3v2"@,
        "1"@,
        "-metadata"@,
        "REKORDBOX=1"@,
    ];
    let reset = match plan.tag_reset {
        Some(t) => seq!["-metadata"@, t@],
        None => Seq::empty(),
    };
    head + reset + seq![bit_flag(plan.container), bit_value(plan), plan.output_path@]
}

pub open spec fn texts(v: Seq<String>) -> Seq<Seq<char>> {
    v.map_values(|a: String| a@)
}

fn push_arg(args: &mut Vec<String>, a: String)
    ensures
        texts(final(args)@) == texts(old(args)@).push(a@),
{
    args.push(a);
    assert(texts(args@) =~= texts(old(args)@).push(a@));
}

/// The encoder's arguments for converting the file at `source` as `plan` says.
pub fn encode_args(source: &str, plan: &ConversionPlan) -> (r: Vec<String>)
    ensures
        texts(r@) == encode_arguments(source@, *plan),
{
    let mut args: Vec<String> = Vec::new();
    assert(texts(args@) =~= Seq::empty());
    push_arg(&mut args, "-y".to_string());
    push_arg(&mut args, "-i".to_string());
    push_arg(&mut args, source.to_string());
    push_arg(&mut args, "-acodec".to_string());
    push_arg(&mut args, plan.codec.clone());
    push_arg(&mut args, "-ar".to_string());
    push_arg(&mut args, decimal_string(plan.sample_rate));
    push_arg(&mut args, "-write_id3v2".to_string());
    push_arg(&mut args, "1".to_string());
    push_arg(&mut args, "-metadata".to_string());
    push_arg(&mut args, "REKORDBOX=1".to_string());
    let ghost head = texts(args@);
    match &plan.tag_reset {
        Some(t) => {
            push_arg(&mut args, "-metadata".to_string());
            push_arg(&mut args, t.clone());
        },
        None => {},
    }
    let ghost with_reset = texts(args@);
    let aiff = match plan.container {
        SupportedAudioFormat::AIFF => true,
        _ => false,
    };
    if aiff {
        push_arg(&mut args, "-sample_fmt".to_string());
        let mut v = "s".to_string();
        v.append(decimal_string(plan.bit_info).as_str());
        proof {
            reveal_strlit("s");
        }
        assert(v@ =~= bit_value(*plan));
        push_arg(&mut args, v);
    } else {
        push_arg(&mut args, "-b:a".to_string());
        push_arg(&mut args, decimal_string(plan.bit_info));
    }
    push_arg(&mut args, plan.output_path.clone());
    assert(texts(args@) =~= encode_arguments(source@, *plan));
    args
}

/// What the encoder's exit means: success where it exited with status 0, and otherwise a
/// `NonZeroExit` carrying its status and its diagnostic output.
pub fn encode_outcome(exit_code: Option<i32>, diagnostics: String) -> (r: Result<(), EncodeError>)
    ensures
        match r {
            Ok(()) => exit_code == Some(0i32),
            Err(e) => exit_code != Some(0i32) && e == (EncodeError::NonZeroExit {
                code: exit_code,
                diagnostics,
            }),
        },
{
    match exit_code {
        Some(0i32) => Ok(()),
        _ => Err(EncodeError::NonZeroExit { code: exit_code, diagnostics }),
    }
}

} // verus!
