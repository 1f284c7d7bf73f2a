use crate::args::Args;
use crate::error::TessError;
use crate::error::TessResult;
use crate::input::ext_allowed;
use crate::input::Image;
use crate::numeric::i32_to_string;
use crate::numeric::spec_i32_string;
use crate::text::contains_seq;
use crate::text::str_contains;
use vstd::prelude::*;
use vstd::string::*;

verus! {

/// Which output the engine is asked to produce.
#[derive(Clone, Copy, Debug, PartialEq, Eq, Structural)]
pub enum OutputFormat {
    /// Plain recognized text.
    Text,
    /// Per-symbol bounding boxes.
    Boxes,
    /// The tab-separated per-word table.
    Tsv,
}

/// Where the engine sends its output: the sentinel asking for capture on
/// standard output, or a base filename for the legacy named-file mode.
pub enum OutputDestination {
    Stdout,
    File(String),
}

/// A fully built invocation: the program name and its argument vector. The
/// arguments are passed as a discrete vector, never through a shell.
pub struct TessCommand {
    pub program: String,
    pub args: Vec<String>,
}

/// The platform's engine binary name: a ".exe"-suffixed name on Windows, the
/// bare name elsewhere.
pub open spec fn spec_binary_name(windows: bool) -> Seq<char> {
    if windows {
        "tesseract.exe"@
    } else {
        "tesseract"@
    }
}

/// Selects the engine binary name; the only platform-dependent choice in the
/// library.
pub fn get_tesseract_command_name(windows: bool) -> (r: String)
    ensures
        r@ == spec_binary_name(windows),
{
    if windows {
        String::from_str("tesseract.exe")
    } else {
        String::from_str("tesseract")
    }
}

/// The destination argument's token.
pub open spec fn spec_destination_token(d: OutputDestination) -> Seq<char> {
    match d {
        OutputDestination::Stdout => "stdout"@,
        OutputDestination::File(base) => base@,
    }
}

/// The `-c name=value` argument pairs, in stored order.
pub open spec fn spec_config_args(cfg: Seq<(Seq<char>, Seq<char>)>) -> Seq<Seq<char>>
    decreases cfg.len(),
{
    if cfg.len() == 0 {
        Seq::empty()
    } else {
        seq!["-c"@, cfg[0].0 + "="@ + cfg[0].1] + spec_config_args(cfg.drop_first())
    }
}

/// The trailing output-mode token, when the format asks for one; plain text
/// is the engine's default and gets none.
pub open spec fn spec_mode_args(f: OutputFormat) -> Seq<Seq<char>> {
    match f {
        OutputFormat::Text => Seq::empty(),
        OutputFormat::Boxes => seq!["makebox"@],
        OutputFormat::Tsv => seq!["tsv"@],
    }
}

/// The whole argument vector of one invocation, in the fixed order: image
/// path, destination, language, configuration pairs, resolution, page
/// segmentation mode, engine mode, and the output-mode token.
pub open spec fn spec_command_args(
    img_path: Seq<char>,
    dest: OutputDestination,
    a: Args,
    f: OutputFormat,
) -> Seq<Seq<char>> {
    seq![img_path, spec_destination_token(dest), "-l"@, a.lang@] + spec_config_args(a.cfg())
        + seq![
        "--dpi"@,
        spec_i32_string(a.dpi as int),
        "--psm"@,
        spec_i32_string(a.psm as int),
        "--oem"@,
        spec_i32_string(a.oem as int),
    ] + spec_mode_args(f)
}

/// One configuration pair more extends the emitted arguments by one
/// `-c name=value` pair.
proof fn lemma_config_args_snoc(c: Seq<(Seq<char>, Seq<char>)>, i: int)
    requires
        0 <= i < c.len(),
    ensures
        spec_config_args(c.take(i + 1)) == spec_config_args(c.take(i)) + seq![
            "-c"@,
            c[i].0 + "="@ + c[i].1,
        ],
    decreases i,
{
    if i == 0 {
        assert(c.take(0) =~= Seq::<(Seq<char>, Seq<char>)>::empty());
        let p = c.take(1);
        assert(p.len() == 1 && p[0] == c[0]);
        assert(p.drop_first() =~= Seq::<(Seq<char>, Seq<char>)>::empty());
        assert(spec_config_args(p) =~= Seq::<Seq<char>>::empty() + seq!["-c"@, c[0].0 + "="@
            + c[0].1]);
        assert(spec_config_args(c.take(0)) == Seq::<Seq<char>>::empty());
        assert(spec_config_args(p) =~= spec_config_args(c.take(0)) + seq!["-c"@, c[0].0 + "="@
            + c[0].1]);
    } else {
        lemma_config_args_snoc(c.drop_first(), i - 1);
        let a = c.take(i + 1);
        let b = c.take(i);
        assert(a.len() > 0 && a[0] == c[0]);
        assert(b.len() > 0 && b[0] == c[0]);
        assert(a.drop_first() =~= c.drop_first().take(i));
        assert(b.drop_first() =~= c.drop_first().take(i - 1));
        assert(c.drop_first()[i - 1] == c[i]);
        assert(spec_config_args(a) == seq!["-c"@, c[0].0 + "="@ + c[0].1] + spec_config_args(
            c.drop_first().take(i),
        ));
        assert(spec_config_args(b) == seq!["-c"@, c[0].0 + "="@ + c[0].1] + spec_config_args(
            c.drop_first().take(i - 1),
        ));
        assert(spec_config_args(a) =~= spec_config_args(b) + seq!["-c"@, c[i].0 + "="@ + c[i].1]);
    }
}

/// Builds the full engine invocation from an image, the arguments, the
/// destination and the output format, in the fixed argument order; the one
/// image-resolution step happens first and its error is propagated untouched.
pub fn create_tesseract_command(
    image: &mut Image,
    args: &Args,
    dest: &OutputDestination,
    format: OutputFormat,
    windows: bool,
) -> (r: TessResult<TessCommand>)
    ensures
        r matches Ok(c) ==> ({
            &&& c.program@ == spec_binary_name(windows)
            &&& c.args@.map_values(|s: String| s@) == spec_command_args(
                final(image).stored_path(),
                *dest,
                *args,
                format,
            )
        }),
        r matches Err(e) ==> (e is TempfileError || e is DynamicImageError
            || e is ImageFormatError || e is ImageNotFoundError),
        !old(image).needs_encoding() ==> *final(image) == *old(image),
        old(image).is_path_backed() || old(image).is_temp_backed() ==> r is Ok,
        old(image).is_raw_backed() && old(image).stored_path().len() > 0 ==> (r is Ok
            <==> ext_allowed(old(image).stored_path())),
        // the resolution error is propagated untouched: each failure kind
        // comes from exactly one case of the image source
        old(image).is_raw_backed() && old(image).stored_path().len() > 0 && !ext_allowed(
            old(image).stored_path(),
        ) ==> (r matches Err(e) && e is ImageFormatError),
        old(image).is_raw_backed() && old(image).stored_path().len() == 0 && old(
            image,
        ).raw_pixels().data@.len() == 0 ==> (r matches Err(e) && e is ImageNotFoundError),
        old(image).needs_encoding() && old(image).raw_data_malformed() ==> (r matches Err(e)
            && e is DynamicImageError),
        old(image).needs_encoding() ==> (r matches Err(e) ==> (e is TempfileError
            || e is DynamicImageError)),
        (r matches Err(e) && e is ImageNotFoundError) ==> old(image).is_raw_backed() && old(
            image,
        ).stored_path().len() == 0 && old(image).raw_pixels().data@.len() == 0,
        (r matches Err(e) && e is ImageFormatError) ==> old(image).is_raw_backed() && old(
            image,
        ).stored_path().len() > 0 && !ext_allowed(old(image).stored_path()),
{
    let path = match image.resolve_image_path() {
        Ok(p) => p,
        Err(e) => {
            return Err(e);
        },
    };
    let program = get_tesseract_command_name(windows);
    let ghost img_path = path@;
    let ghost head = seq![img_path, spec_destination_token(*dest), "-l"@, args.lang@];
    let mut argv: Vec<String> = Vec::new();
    argv.push(path);
    match dest {
        OutputDestination::Stdout => argv.push(String::from_str("stdout")),
        OutputDestination::File(base) => argv.push(base.clone()),
    }
    argv.push(String::from_str("-l"));
    argv.push(args.lang.clone());
    proof {
        assert(args.cfg().take(0) =~= Seq::<(Seq<char>, Seq<char>)>::empty());
        assert(argv@.map_values(|s: String| s@) =~= head + spec_config_args(args.cfg().take(0)));
    }
    let n = args.config_variables.len();
    let mut i: usize = 0;
    while i < n
        invariant
            n == args.config_variables@.len(),
            0 <= i <= n,
            head == seq![img_path, spec_destination_token(*dest), "-l"@, args.lang@],
            argv@.map_values(|s: String| s@) == head + spec_config_args(
                args.cfg().take(i as int),
            ),
        decreases n - i,
    {
        let ghost before = argv@.map_values(|s: String| s@);
        argv.push(String::from_str("-c"));
        proof {
            assert(argv@.map_values(|s: String| s@) =~= before.push("-c"@));
        }
        let ghost mid = argv@.map_values(|s: String| s@);
        let mut kv = args.config_variables[i].0.clone();
        kv.append("=");
        kv.append(args.config_variables[i].1.as_str());
        proof {
            assert(args.cfg()[i as int] == (
                args.config_variables@[i as int].0@,
                args.config_variables@[i as int].1@,
            ));
            assert(kv@ == args.cfg()[i as int].0 + "="@ + args.cfg()[i as int].1);
            lemma_config_args_snoc(args.cfg(), i as int);
        }
        argv.push(kv);
        proof {
            assert(argv@.map_values(|s: String| s@) =~= mid.push(kv@));
            assert(argv@.map_values(|s: String| s@) =~= head + spec_config_args(
                args.cfg().take(i + 1),
            ));
        }
        i += 1;
    }
    proof {
        assert(args.cfg().take(n as int) =~= args.cfg());
    }
    let ghost base = argv@.map_values(|s: String| s@);
    let ghost tail = seq![
        "--dpi"@,
        spec_i32_string(args.dpi as int),
        "--psm"@,
        spec_i32_string(args.psm as int),
        "--oem"@,
        spec_i32_string(args.oem as int),
    ];
    argv.push(String::from_str("--dpi"));
    argv.push(i32_to_string(args.dpi));
    argv.push(String::from_str("--psm"));
    argv.push(i32_to_string(args.psm));
    argv.push(String::from_str("--oem"));
    argv.push(i32_to_string(args.oem));
    proof {
        assert(argv@.map_values(|s: String| s@) =~= base + tail);
    }
    match format {
        OutputFormat::Text => {
            proof {
                assert(spec_mode_args(format) =~= Seq::<Seq<char>>::empty());
                assert(argv@.map_values(|s: String| s@) =~= spec_command_args(
                    img_path,
                    *dest,
                    *args,
                    format,
                ));
            }
        },
        OutputFormat::Boxes => {
            argv.push(String::from_str("makebox"));
            proof {
                assert(argv@.map_values(|s: String| s@) =~= (base + tail).push("makebox"@));
                assert(argv@.map_values(|s: String| s@) =~= spec_command_args(
                    img_path,
                    *dest,
                    *args,
                    format,
                ));
            }
        },
        OutputFormat::Tsv => {
            argv.push(String::from_str("tsv"));
            proof {
                assert(argv@.map_values(|s: String| s@) =~= (base + tail).push("tsv"@));
                assert(argv@.map_values(|s: String| s@) =~= spec_command_args(
                    img_path,
                    *dest,
                    *args,
                    format,
                ));
            }
        },
    }
    Ok(TessCommand { program, args: argv })
}

/// Two invocations built from images that resolve to the same path, equal
/// arguments, the same destination and the same format have byte-identical
/// argument vectors; nothing else goes into the vector, so command building
/// is deterministic.
pub proof fn lemma_command_deterministic(
    path1: Seq<char>,
    path2: Seq<char>,
    dest1: OutputDestination,
    dest2: OutputDestination,
    a1: Args,
    a2: Args,
    f: OutputFormat,
)
    requires
        path1 == path2,
        spec_destination_token(dest1) == spec_destination_token(dest2),
        a1.lang@ == a2.lang@,
        a1.dpi == a2.dpi,
        a1.psm == a2.psm,
        a1.oem == a2.oem,
        a1.cfg() == a2.cfg(),
    ensures
        spec_command_args(path1, dest1, a1, f) == spec_command_args(path2, dest2, a2, f),
{
}

/// The version query: the engine binary invoked with the version flag alone.
pub fn version_command(windows: bool) -> (r: TessCommand)
    ensures
        r.program@ == spec_binary_name(windows),
        r.args@.map_values(|s: String| s@) =~= seq!["--version"@],
{
    let program = get_tesseract_command_name(windows);
    let mut argv: Vec<String> = Vec::new();
    argv.push(String::from_str("--version"));
    TessCommand { program, args: argv }
}

/// What running one invocation produced: the spawn itself failed, or the
/// child ran to an end with captured output, error text and exit status
/// (`None` when ended by a signal).
pub enum ProcessOutcome {
    SpawnFailed,
    Completed { exit_code: Option<i32>, stdout: String, stderr: String },
}

/// Classifies a finished invocation. A failed spawn is
/// `TesseractNotFoundError`; exit status zero yields the captured standard
/// output verbatim and is the only success; any other end yields
/// `VersionError` carrying the captured standard-error text verbatim.
pub fn interpret_process_outcome(outcome: ProcessOutcome) -> (r: TessResult<String>)
    ensures
        outcome is SpawnFailed ==> (r matches Err(e) && e is TesseractNotFoundError),
        (outcome matches ProcessOutcome::Completed { exit_code, stdout, stderr } ==> (if exit_code
            == Some(0i32) {
            r matches Ok(s) && s@ == stdout@
        } else {
            r matches Err(e) && (e matches TessError::VersionError(t) && t@ == stderr@)
        })),
{
    match outcome {
        ProcessOutcome::SpawnFailed => Err(TessError::TesseractNotFoundError),
        ProcessOutcome::Completed { exit_code, stdout, stderr } => {
            match exit_code {
                Some(code) => {
                    if code == 0 {
                        Ok(stdout)
                    } else {
                        Err(TessError::VersionError(stderr))
                    }
                },
                None => Err(TessError::VersionError(stderr)),
            }
        },
    }
}

/// The version query's result: exit status zero yields the version text the
/// engine printed; a missing binary is `TesseractNotFoundError`, never a
/// panic or an empty string; any other end is `VersionError` with the
/// engine's own diagnostic text.
pub fn get_tesseract_version(outcome: ProcessOutcome) -> (r: TessResult<String>)
    ensures
        outcome is SpawnFailed ==> (r matches Err(e) && e is TesseractNotFoundError),
        (outcome matches ProcessOutcome::Completed { exit_code, stdout, stderr } ==> (if exit_code
            == Some(0i32) {
            r matches Ok(s) && s@ == stdout@
        } else {
            r matches Err(e) && (e matches TessError::VersionError(t) && t@ == stderr@)
        })),
{
    interpret_process_outcome(outcome)
}

/// The plain-text-mode result of a finished invocation: the engine's
/// standard output, verbatim. The caller runs the built command and hands the
/// outcome here; a failed spawn is `TesseractNotFoundError` and a non-zero
/// exit is `VersionError` carrying the captured standard-error text.
pub fn image_to_string(outcome: ProcessOutcome) -> (r: TessResult<String>)
    ensures
        outcome is SpawnFailed ==> (r matches Err(e) && e is TesseractNotFoundError),
        (outcome matches ProcessOutcome::Completed { exit_code, stdout, stderr } ==> (if exit_code
            == Some(0i32) {
            r matches Ok(s) && s@ == stdout@
        } else {
            r matches Err(e) && (e matches TessError::VersionError(t) && t@ == stderr@)
        })),
{
    interpret_process_outcome(outcome)
}

/// The name of the file a legacy named-file invocation writes: the base name
/// with ".txt" (text mode) or ".box" (box mode) appended, unless the base
/// name already holds that extension somewhere.
pub open spec fn spec_output_file_name(base: Seq<char>, boxfile: bool) -> Seq<char> {
    if boxfile {
        if contains_seq(base, ".box"@) {
            base
        } else {
            base + ".box"@
        }
    } else {
        if contains_seq(base, ".txt"@) {
            base
        } else {
            base + ".txt"@
        }
    }
}

/// Computes the output file's name for a legacy named-file invocation.
pub fn output_file_name(base: &str, boxfile: bool) -> (r: String)
    ensures
        r@ == spec_output_file_name(base@, boxfile),
{
    if boxfile {
        if str_contains(base, ".box") {
            base.to_owned()
        } else {
            let mut r = base.to_owned();
            r.append(".box");
            r
        }
    } else {
        if str_contains(base, ".txt") {
            base.to_owned()
        } else {
            let mut r = base.to_owned();
            r.append(".txt");
            r
        }
    }
}

/// The result of a legacy named-file invocation, given what the run produced
/// and whether the expected output file could be read afterwards. A zero exit
/// with a readable file yields the file's content; a zero exit without the
/// file is `OutputFileMissing`, never an empty success.
pub fn file_mode_result(outcome: ProcessOutcome, file_content: Option<String>) -> (r: TessResult<
    String,
>)
    ensures
        outcome is SpawnFailed ==> (r matches Err(e) && e is TesseractNotFoundError),
        (outcome matches ProcessOutcome::Completed { exit_code, stderr, .. } ==> (if exit_code
            == Some(0i32) {
            match file_content {
                Some(text) => r matches Ok(s) && s@ == text@,
                None => r matches Err(e) && e is OutputFileMissing,
            }
        } else {
            r matches Err(e) && (e matches TessError::VersionError(t) && t@ == stderr@)
        })),
{
    match outcome {
        ProcessOutcome::SpawnFailed => Err(TessError::TesseractNotFoundError),
        ProcessOutcome::Completed { exit_code, stdout: _, stderr } => {
            match exit_code {
                Some(code) => {
                    if code == 0 {
                        match file_content {
                            Some(text) => Ok(text),
                            None => Err(TessError::OutputFileMissing),
                        }
                    } else {
                        Err(TessError::VersionError(stderr))
                    }
                },
                None => Err(TessError::VersionError(stderr)),
            }
        },
    }
}

} // verus!
