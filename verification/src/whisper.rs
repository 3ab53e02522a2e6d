//! How the speech engine is found and what it is asked to do.

use vstd::prelude::*;
use crate::config::AppConfig;

verus! {

/// Where the speech-engine program is taken from.
#[derive(Clone, Copy, Debug, PartialEq, Eq, Structural)]
pub enum WhisperLocation {
    /// The copy in the development tree (`../bin/whisper-cli.exe`).
    DevTree,
    /// The copy shipped next to the executable (`bin/whisper-cli.exe`).
    Bundled,
}

/// The development copy when it exists, the bundled one otherwise.
pub fn locate_whisper(dev_exists: bool) -> (w: WhisperLocation)
    ensures
        dev_exists ==> w == WhisperLocation::DevTree,
        !dev_exists ==> w == WhisperLocation::Bundled,
{
    if dev_exists {
        WhisperLocation::DevTree
    } else {
        WhisperLocation::Bundled
    }
}

/// The command-line arguments of one transcription run.
pub open spec fn whisper_arguments(
    model: Seq<char>,
    audio: Seq<char>,
    output_base: Seq<char>,
    language: Seq<char>,
    translate: bool,
) -> Seq<Seq<char>> {
    let base = seq![
        "-m"@,
        model,
        "-f"@,
        audio,
        "-otxt"@,
        "-of"@,
        output_base,
        "-l"@,
        language,
        "--no-timestamps"@,
        "--max-context"@,
        "64"@,
        "-t"@,
        "4"@,
        "--no-gpu"@,
    ];
    if translate {
        base.push("-tr"@)
    } else {
        base
    }
}

/// The views of a list of strings.
pub open spec fn string_views(v: Seq<String>) -> Seq<Seq<char>> {
    v.map_values(|s: String| s@)
}

/// Arguments for the speech engine: model file, audio file, output base name
/// (the engine adds `.txt`), the configured language, no timestamps, a
/// context of 64 tokens, 4 threads, no GPU, and `-tr` when translating.
pub fn whisper_args(model_path: &str, audio_path: &str, output_base: &str, config: &AppConfig) -> (args:
    Vec<String>)
    ensures
        string_views(args@) == whisper_arguments(
            model_path@,
            audio_path@,
            output_base@,
            config.language@,
            config.translate,
        ),
{
    let mut args: Vec<String> = Vec::new();
    args.push(String::from_str("-m"));
    args.push(String::from_str(model_path));
    args.push(String::from_str("-f"));
    args.push(String::from_str(audio_path));
    args.push(String::from_str("-otxt"));
    args.push(String::from_str("-of"));
    args.push(String::from_str(output_base));
    args.push(String::from_str("-l"));
    args.push(config.language.clone());
    args.push(String::from_str("--no-timestamps"));
    args.push(String::from_str("--max-context"));
    args.push(String::from_str("64"));
    args.push(String::from_str("-t"));
    args.push(String::from_str("4"));
    args.push(String::from_str("--no-gpu"));
    if config.translate {
        args.push(String::from_str("-tr"));
    }
    assert(string_views(args@) =~= whisper_arguments(
        model_path@,
        audio_path@,
        output_base@,
        config.language@,
        config.translate,
    ));
    args
}

/// Every run names the model right after `-m`, the audio right after `-f`,
/// the output base right after `-of` and the language right after `-l`;
/// translating only appends `-tr` to the arguments of the same run without
/// translation.
pub proof fn lemma_whisper_arguments_shape(
    model: Seq<char>,
    audio: Seq<char>,
    output_base: Seq<char>,
    language: Seq<char>,
    translate: bool,
)
    ensures
        ({
            let args = whisper_arguments(model, audio, output_base, language, translate);
            &&& args.len() >= 15
            &&& args[0] == "-m"@ && args[1] == model
            &&& args[2] == "-f"@ && args[3] == audio
            &&& args[5] == "-of"@ && args[6] == output_base
            &&& args[7] == "-l"@ && args[8] == language
        }),
        whisper_arguments(model, audio, output_base, language, true) == whisper_arguments(
            model,
            audio,
            output_base,
            language,
            false,
        ).push("-tr"@),
        whisper_arguments(model, audio, output_base, language, false).len() == 15,
{
}

} // verus!
