//! The decisions of the simplified compile driver: where the primary input
//! lives and what the intermediate and output files are called, when BibTeX
//! runs, when the multi-pass TeX loop has converged, and which result the
//! whole compile (or a format generation) ends with. The engines themselves,
//! and all file-system work, are driven by the caller, which reports back
//! what happened.
use crate::memory_io::MemoryIo;
use crate::paths::{
    extension, extension_of, file_name, file_name_of, is_absolute, is_absolute_text, parent,
    parent_of,
};
use crate::text::{join_text, contains_bytes, ends_with, find_bytes, same_bytes, strip_suffix};
use vstd::prelude::*;

verus! {

/// The largest number of TeX passes that one compile runs.
pub const MAX_TEX_PASSES: usize = 6;

/// The format that compiles load.
pub open spec fn format_name_text() -> Seq<char> {
    "latex"@
}

/// The directory that holds the primary input of a compile of `input_path`:
/// the parent of an absolute path (or `/input` where it has none), and
/// `/input` for a relative path.
pub open spec fn input_dir_of(input_path: Seq<char>) -> Seq<char> {
    if is_absolute_text(input_path) {
        match parent_of(input_path) {
            Some(dir) => dir,
            None => "/input"@,
        }
    } else {
        "/input"@
    }
}

/// The file name of the primary input: the final component of an absolute
/// path (empty where it has none), or the relative path itself.
pub open spec fn tex_name_of(input_path: Seq<char>) -> Seq<char> {
    if is_absolute_text(input_path) {
        match file_name_of(input_path) {
            Some(name) => name,
            None => Seq::<char>::empty(),
        }
    } else {
        input_path
    }
}

/// The base name of the outputs: the input name without a trailing `.tex`.
pub open spec fn base_name_of(tex_name: Seq<char>) -> Seq<char> {
    if ends_with(tex_name, ".tex"@) {
        tex_name.take(tex_name.len() - 4)
    } else {
        tex_name
    }
}

/// The names that one compile works with.
pub struct CompileJob {
    /// Directory searched for the primary input and other source files.
    pub input_dir: String,
    /// Name of the primary input within `input_dir`.
    pub tex_name: String,
    /// Base name of the outputs.
    pub base_name: String,
    /// The intermediate XDV file.
    pub xdv_name: String,
    /// The PDF that is written out.
    pub pdf_name: String,
    /// The auxiliary file whose contents decide reruns and BibTeX.
    pub aux_name: String,
    /// The format to load.
    pub format_name: String,
}

impl CompileJob {
    /// What `plan_compile(input_path)` gives.
    pub open spec fn planned_for(&self, input_path: Seq<char>) -> bool {
        let base = base_name_of(tex_name_of(input_path));
        &&& self.input_dir@ == input_dir_of(input_path)
        &&& self.tex_name@ == tex_name_of(input_path)
        &&& self.base_name@ == base
        &&& self.xdv_name@ == base + ".xdv"@
        &&& self.pdf_name@ == base + ".pdf"@
        &&& self.aux_name@ == base + ".aux"@
        &&& self.format_name@ == format_name_text()
    }
}

/// Works out the names for compiling `input_path`.
pub fn plan_compile(input_path: &str) -> (job: CompileJob)
    ensures
        job.planned_for(input_path@),
        input_path@.len() == 0 || input_path@[0] != '/' ==> job.tex_name@ == input_path@
            && job.input_dir@ == "/input"@,
{
    let (input_dir, tex_name) = if is_absolute(input_path) {
        let dir = match parent(input_path) {
            Some(d) => d,
            None => "/input".to_owned(),
        };
        let name = match file_name(input_path) {
            Some(n) => n,
            None => String::new(),
        };
        (dir, name)
    } else {
        ("/input".to_owned(), input_path.to_owned())
    };
    let base_name = match strip_suffix(tex_name.as_str(), ".tex") {
        Some(b) => b,
        None => tex_name.clone(),
    };
    proof {
        reveal_strlit(".tex");
    }
    let xdv_name = join_text(base_name.as_str(), ".xdv");
    let pdf_name = join_text(base_name.as_str(), ".pdf");
    let aux_name = join_text(base_name.as_str(), ".aux");
    let format_name = "latex".to_owned();
    CompileJob { input_dir, tex_name, base_name, xdv_name, pdf_name, aux_name, format_name }
}

/// Names the SHA-256 digest of a byte sequence.
pub uninterp spec fn sha256_of(data: Seq<u8>) -> Seq<u8>;

/// `sha2::Sha256::digest`: claims that the result is the function
/// `sha256_of` of the input bytes and that it is 32 bytes long (SHA-256
/// produces a 256-bit digest).
#[verifier::external_body]
fn sha256(data: &[u8]) -> (r: Vec<u8>)
    ensures
        r@ == sha256_of(data@),
        r@.len() == 32,
{
    <sha2::Sha256 as sha2::Digest>::digest(data).to_vec()
}

/// The contents of an optional byte vector.
pub open spec fn opt_bytes(v: Option<Vec<u8>>) -> Option<Seq<u8>> {
    match v {
        Some(b) => Some(b@),
        None => None,
    }
}

/// The digest that convergence is judged by: that of the `.aux` file's
/// contents, or none where there is no `.aux` file.
pub open spec fn aux_digest_of(aux: Option<Seq<u8>>) -> Option<Seq<u8>> {
    match aux {
        Some(a) => Some(sha256_of(a)),
        None => None,
    }
}

/// The marker that shows a document uses a bibliography database: `\bibdata`.
pub open spec fn bibdata_marker() -> Seq<u8> {
    seq![92u8, 98u8, 105u8, 98u8, 100u8, 97u8, 116u8, 97u8]
}

/// Whether an `.aux` file's contents call for BibTeX: they mention `\bibdata`.
pub fn mentions_bibdata(aux: &[u8]) -> (r: bool)
    ensures
        r == contains_bytes(aux@, bibdata_marker()),
{
    let marker: [u8; 8] = [92u8, 98u8, 105u8, 98u8, 100u8, 97u8, 116u8, 97u8];
    proof {
        assert(marker@ =~= bibdata_marker());
    }
    find_bytes(aux, &marker)
}

/// The digest by which convergence is judged (see `aux_digest_of`).
pub fn aux_digest(aux: &Option<Vec<u8>>) -> (r: Option<Vec<u8>>)
    ensures
        opt_bytes(r) == aux_digest_of(opt_bytes(*aux)),
        match *aux {
            Some(a) => r matches Some(d) && d@ == sha256_of(a@),
            None => r is None,
        },
{
    match aux {
        Some(a) => Some(sha256(a.as_slice())),
        None => None,
    }
}

fn same_digest(a: &Option<Vec<u8>>, b: &Option<Vec<u8>>) -> (r: bool)
    ensures
        r == (opt_bytes(*a) == opt_bytes(*b)),
{
    match (a, b) {
        (Some(x), Some(y)) => same_bytes(x, y),
        (None, None) => true,
        _ => false,
    }
}

/// What the compile does next after a step of the TeX pass loop.
#[derive(Clone, Copy, Debug, PartialEq, Eq, Structural)]
pub enum PassStep {
    /// The TeX engine reported errors: the compile fails.
    Failed,
    /// Run BibTeX on the `.aux` file, then report with `after_bibtex`.
    RunBibtex,
    /// Run the next TeX pass, then report with `after_tex`.
    RunTex,
    /// The `.aux` file did not change over the last pass: the loop is done.
    Converged,
    /// The last permitted pass has run: the loop is done.
    PassLimitReached,
}

/// The state of the multi-pass TeX loop.
pub struct TexPasses {
    pass: usize,
    prev_digest: Option<Vec<u8>>,
    awaiting_bibtex: bool,
    finished: bool,
}

impl TexPasses {
    #[verifier::type_invariant]
    spec fn within_pass_limit(&self) -> bool {
        self.pass < MAX_TEX_PASSES
    }

    /// The index (from 0) of the TeX pass that runs or has just run.
    pub closed spec fn pass_index(&self) -> nat {
        self.pass as nat
    }

    /// The `.aux` digest recorded after the previous pass, if any.
    pub closed spec fn previous_digest(&self) -> Option<Seq<u8>> {
        opt_bytes(self.prev_digest)
    }

    /// BibTeX has been requested and its completion not yet reported.
    pub closed spec fn awaiting_bibtex(&self) -> bool {
        self.awaiting_bibtex
    }

    /// The loop has ended (failed, converged, or reached the pass limit).
    pub closed spec fn finished(&self) -> bool {
        self.finished
    }

    /// The loop before its first pass: run TeX pass 0.
    pub fn new() -> (p: TexPasses)
        ensures
            p.pass_index() == 0,
            p.previous_digest() is None,
            !p.awaiting_bibtex(),
            !p.finished(),
    {
        TexPasses { pass: 0, prev_digest: None, awaiting_bibtex: false, finished: false }
    }

    /// The index (from 0) of the current TeX pass.
    pub fn current_pass(&self) -> (n: usize)
        ensures
            n == self.pass_index(),
            n < MAX_TEX_PASSES,
    {
        proof {
            use_type_invariant(self);
        }
        self.pass
    }

    /// Records the `.aux` file after a pass (and BibTeX, if it ran) and
    /// decides between converging, stopping at the pass limit, and another
    /// pass.
    fn conclude_pass(&mut self, aux: &Option<Vec<u8>>) -> (step: PassStep)
        requires
            !old(self).finished(),
        ensures
            pass_conclusion(*old(self), *final(self), opt_bytes(*aux), step),
    {
        proof {
            use_type_invariant(&*self);
        }
        let current = aux_digest(aux);
        if self.pass > 0 && same_digest(&self.prev_digest, &current) {
            self.finished = true;
            self.awaiting_bibtex = false;
            PassStep::Converged
        } else if self.pass == MAX_TEX_PASSES - 1 {
            self.prev_digest = current;
            self.finished = true;
            self.awaiting_bibtex = false;
            PassStep::PassLimitReached
        } else {
            self.prev_digest = current;
            self.pass = self.pass + 1;
            self.awaiting_bibtex = false;
            PassStep::RunTex
        }
    }

    /// Reports that the current TeX pass has finished, whether the engine
    /// reported errors, and the `.aux` file it left (if any).
    /// Errors end the compile. After the first pass, an `.aux` file that
    /// mentions `\bibdata` calls for BibTeX. Otherwise the pass is concluded:
    /// the loop has converged when, after the first pass, the `.aux` digest
    /// equals the previous pass's; it stops after the last permitted pass; and
    /// it runs another pass otherwise.
    pub fn after_tex(&mut self, errors: bool, aux: &Option<Vec<u8>>) -> (step: PassStep)
        requires
            !old(self).finished(),
            !old(self).awaiting_bibtex(),
        ensures
            errors ==> step == PassStep::Failed && final(self).finished()
                && final(self).pass_index() == old(self).pass_index(),
            !errors && old(self).pass_index() == 0 && (opt_bytes(*aux) matches Some(a)
                && contains_bytes(a, bibdata_marker())) ==> step == PassStep::RunBibtex
                && final(self).awaiting_bibtex() && !final(self).finished()
                && final(self).pass_index() == old(self).pass_index()
                && final(self).previous_digest() == old(self).previous_digest(),
            !errors && !(old(self).pass_index() == 0 && (opt_bytes(*aux) matches Some(a)
                && contains_bytes(a, bibdata_marker()))) ==> pass_conclusion(
                *old(self),
                *final(self),
                opt_bytes(*aux),
                step,
            ),
    {
        proof {
            use_type_invariant(&*self);
        }
        if errors {
            self.finished = true;
            return PassStep::Failed;
        }
        if self.pass == 0 {
            let bib = match aux {
                Some(a) => mentions_bibdata(a.as_slice()),
                None => false,
            };
            if bib {
                self.awaiting_bibtex = true;
                return PassStep::RunBibtex;
            }
        }
        self.conclude_pass(aux)
    }

    /// Reports that BibTeX has run, and the `.aux` file as it stands now;
    /// the pass is then concluded as in `after_tex`.
    pub fn after_bibtex(&mut self, aux: &Option<Vec<u8>>) -> (step: PassStep)
        requires
            !old(self).finished(),
            old(self).awaiting_bibtex(),
        ensures
            pass_conclusion(*old(self), *final(self), opt_bytes(*aux), step),
    {
        self.conclude_pass(aux)
    }
}

/// How a pass is concluded from the state before it and the `.aux` contents
/// after it: the new state and the step taken.
pub open spec fn pass_conclusion(
    before: TexPasses,
    after: TexPasses,
    aux: Option<Seq<u8>>,
    step: PassStep,
) -> bool {
    let current = aux_digest_of(aux);
    &&& !after.awaiting_bibtex()
    &&& if before.pass_index() > 0 && before.previous_digest() == current {
        &&& step == PassStep::Converged
        &&& after.finished()
        &&& after.pass_index() == before.pass_index()
    } else if before.pass_index() + 1 == MAX_TEX_PASSES {
        &&& step == PassStep::PassLimitReached
        &&& after.finished()
        &&& after.pass_index() == before.pass_index()
        &&& after.previous_digest() == current
    } else {
        &&& step == PassStep::RunTex
        &&& !after.finished()
        &&& after.pass_index() == before.pass_index() + 1
        &&& after.previous_digest() == current
    }
}

/// Why a compile or a format generation failed.
#[derive(Clone, Copy, Debug, PartialEq, Eq, Structural)]
pub enum CompileError {
    /// The TeX engine reported errors in a compile pass.
    TexErrors,
    /// The passes and the conversion left no PDF behind.
    NoPdfOutput,
    /// The TeX engine reported errors while generating the format.
    FormatErrors,
    /// Format generation finished without producing `latex.fmt`.
    NoFormatOutput,
}

/// The message reported for each failure.
pub open spec fn error_message_text(e: CompileError) -> Seq<char> {
    match e {
        CompileError::TexErrors => "TeX engine reported errors"@,
        CompileError::NoPdfOutput => "no PDF output was generated"@,
        CompileError::FormatErrors => "TeX engine reported errors during format generation"@,
        CompileError::NoFormatOutput => "format generation completed but no latex.fmt was produced"@,
    }
}

impl CompileError {
    /// The message reported for this failure.
    pub fn message(&self) -> (m: &'static str)
        ensures
            m@ == error_message_text(*self),
    {
        match self {
            CompileError::TexErrors => "TeX engine reported errors",
            CompileError::NoPdfOutput => "no PDF output was generated",
            CompileError::FormatErrors => "TeX engine reported errors during format generation",
            CompileError::NoFormatOutput => "format generation completed but no latex.fmt was produced",
        }
    }
}

impl CompileJob {
    /// After the TeX passes: the XDV file is converted to PDF exactly when
    /// the passes left one in the store (the caller then removes it).
    pub fn needs_xdvipdfmx(&self, mem: &MemoryIo) -> (b: bool)
        ensures
            b == mem@.dom().contains(self.xdv_name@),
    {
        mem.has_file(self.xdv_name.as_str())
    }

    /// The result of the compile once the passes (and the conversion, if it
    /// ran) are done: the stored PDF, or `NoPdfOutput` where there is none.
    pub fn pdf_output(&self, mem: &MemoryIo) -> (r: Result<Vec<u8>, CompileError>)
        ensures
            match r {
                Ok(pdf) => mem@.dom().contains(self.pdf_name@) && pdf@ == mem@[self.pdf_name@],
                Err(e) => e == CompileError::NoPdfOutput && !mem@.dom().contains(self.pdf_name@),
            },
    {
        match mem.get_file(self.pdf_name.as_str()) {
            Some(pdf) => Ok(pdf),
            None => Err(CompileError::NoPdfOutput),
        }
    }
}

/// The primary input of a format generation, as text.
pub open spec fn format_primary_input_text() -> Seq<char> {
    "\\input tectonic-format-latex.tex"@
}

/// The primary input of a format generation: it reads the LaTeX format source.
pub fn format_primary_input() -> (s: &'static str)
    ensures
        s@ == format_primary_input_text(),
{
    "\\input tectonic-format-latex.tex"
}

/// The name under which the generated format is stored and written.
pub open spec fn format_file_text() -> Seq<char> {
    "latex.fmt"@
}

/// The name under which the generated format is stored and written.
pub fn format_file_name() -> (s: &'static str)
    ensures
        s@ == format_file_text(),
{
    "latex.fmt"
}

/// The result of a format generation, from whether the initex run reported
/// errors and the store it wrote to: `FormatErrors` on errors; otherwise the
/// stored `latex.fmt`, or `NoFormatOutput` where there is none.
pub fn format_result(errors: bool, mem: &MemoryIo) -> (r: Result<Vec<u8>, CompileError>)
    ensures
        errors ==> r == Err::<Vec<u8>, CompileError>(CompileError::FormatErrors),
        !errors ==> match r {
            Ok(fmt) => mem@.dom().contains(format_file_text()) && fmt@ == mem@[format_file_text()],
            Err(e) => e == CompileError::NoFormatOutput && !mem@.dom().contains(format_file_text()),
        },
{
    if errors {
        return Err(CompileError::FormatErrors);
    }
    match mem.get_file(format_file_name()) {
        Some(fmt) => Ok(fmt),
        None => Err(CompileError::NoFormatOutput),
    }
}

/// Where an input file may be found.
#[derive(Clone, Copy, Debug, PartialEq, Eq, Structural)]
pub enum InputSource {
    /// The in-memory store of intermediate files.
    Memory,
    /// The input directory on the file system.
    Filesystem,
    /// The bundle of TeX support files.
    Bundle,
}

/// The order in which the places are asked for an input file, for a
/// compile's ordinary inputs, a compile's format file, and the inputs of a
/// format generation. The first place that does not answer "not available"
/// (with the file or with an error) decides. Names are normalized
/// (`normalized_name`) before they are asked, except in the first, bundle
/// lookup of a format file, which uses the name as given.
pub open spec fn input_order(format_file: bool, generating_format: bool) -> Seq<InputSource> {
    if generating_format {
        seq![InputSource::Memory, InputSource::Bundle]
    } else if format_file {
        seq![InputSource::Bundle, InputSource::Memory, InputSource::Filesystem, InputSource::Bundle]
    } else {
        seq![InputSource::Memory, InputSource::Filesystem, InputSource::Bundle]
    }
}

/// Computes `input_order`.
pub fn input_search_order(format_file: bool, generating_format: bool) -> (v: Vec<InputSource>)
    ensures
        v@ == input_order(format_file, generating_format),
{
    let mut v = Vec::new();
    if generating_format {
        v.push(InputSource::Memory);
        v.push(InputSource::Bundle);
    } else {
        if format_file {
            v.push(InputSource::Bundle);
        }
        v.push(InputSource::Memory);
        v.push(InputSource::Filesystem);
        v.push(InputSource::Bundle);
    }
    proof {
        assert(v@ =~= input_order(format_file, generating_format));
    }
    v
}

/// The kind of a status message.
#[derive(Clone, Copy, Debug, PartialEq, Eq, Structural)]
pub enum MessageLevel {
    /// An informational note.
    Note,
    /// A warning.
    Warning,
    /// An error.
    Error,
}

/// The word that introduces a status message of each kind.
pub open spec fn level_word(level: MessageLevel) -> Seq<char> {
    match level {
        MessageLevel::Note => "note"@,
        MessageLevel::Warning => "warning"@,
        MessageLevel::Error => "error"@,
    }
}

/// The word that introduces a status message of the given kind.
pub fn message_prefix(level: MessageLevel) -> (s: &'static str)
    ensures
        s@ == level_word(level),
{
    match level {
        MessageLevel::Note => "note",
        MessageLevel::Warning => "warning",
        MessageLevel::Error => "error",
    }
}

/// How an exported compile call ended.
#[derive(Clone, Copy, Debug, PartialEq, Eq, Structural)]
pub enum CallOutcome {
    /// The document compiled.
    Succeeded,
    /// The compile returned an error.
    Failed,
    /// The compile panicked.
    Panicked,
}

/// The status code that an exported compile call returns: 0 on success, 1 on
/// an error, 2 on a panic.
pub fn exit_code(outcome: CallOutcome) -> (code: i32)
    ensures
        outcome == CallOutcome::Succeeded ==> code == 0,
        outcome == CallOutcome::Failed ==> code == 1,
        outcome == CallOutcome::Panicked ==> code == 2,
{
    match outcome {
        CallOutcome::Succeeded => 0,
        CallOutcome::Failed => 1,
        CallOutcome::Panicked => 2,
    }
}

/// Whether a directory entry is a TeX source: its extension is `tex`.
pub fn is_tex_source(path: &str) -> (b: bool)
    ensures
        b == (extension_of(path@) == Some("tex"@)),
{
    match extension(path) {
        Some(ext) => {
            let r = crate::text::same_text(ext.as_str(), "tex");
            r
        },
        None => false,
    }
}

/// The arguments of a compile: the primary input, the output directory, and
/// the bundle directory.
pub struct CompileRequest {
    /// The primary input (absolute, or relative to `/input`).
    pub input_path: String,
    /// Where the PDF is written.
    pub output_dir: String,
    /// The directory of TeX support files.
    pub bundle_dir: String,
}

/// The default compile: the first TeX source found in `/input/` (or
/// `input.tex` where there is none), written to `/output` with the bundle in
/// `/bundle`.
pub fn default_request(first_tex_source: Option<String>) -> (r: CompileRequest)
    ensures
        r.input_path@ == match first_tex_source {
            Some(p) => p@,
            None => "input.tex"@,
        },
        r.output_dir@ == "/output"@,
        r.bundle_dir@ == "/bundle"@,
{
    let input_path = match first_tex_source {
        Some(p) => p,
        None => "input.tex".to_owned(),
    };
    CompileRequest { input_path, output_dir: "/output".to_owned(), bundle_dir: "/bundle".to_owned() }
}

/// No compile runs more than `MAX_TEX_PASSES` TeX passes: concluding a pass
/// either ends the loop or moves on to the next pass, which is below the
/// limit.
pub proof fn law_pass_limit(before: TexPasses, after: TexPasses, aux: Option<Seq<u8>>, step: PassStep)
    requires
        before.pass_index() < MAX_TEX_PASSES,
        pass_conclusion(before, after, aux, step),
    ensures
        step == PassStep::RunTex ==> after.pass_index() == before.pass_index() + 1
            && after.pass_index() < MAX_TEX_PASSES && !after.finished(),
        step != PassStep::RunTex ==> after.finished(),
        step == PassStep::RunTex || step == PassStep::Converged || step
            == PassStep::PassLimitReached,
{
}

/// The loop converges exactly when, after the first pass, the `.aux` digest
/// equals the one recorded after the previous pass; in particular an `.aux`
/// file with the same contents as after the previous pass (or absent after
/// both) means convergence.
pub proof fn law_convergence(
    before: TexPasses,
    after: TexPasses,
    previous_aux: Option<Seq<u8>>,
    aux: Option<Seq<u8>>,
    step: PassStep,
)
    requires
        pass_conclusion(before, after, aux, step),
    ensures
        (step == PassStep::Converged) == (before.pass_index() > 0 && before.previous_digest()
            == aux_digest_of(aux)),
        before.pass_index() > 0 && before.previous_digest() == aux_digest_of(previous_aux)
            && previous_aux == aux ==> step == PassStep::Converged,
        step != PassStep::Converged ==> after.previous_digest() == aux_digest_of(aux),
{
}

/// Convergence is judged by the SHA-256 of the whole `.aux` file: the digest
/// of any contents is their SHA-256. After the first pass, a pass whose
/// `.aux` contents have a SHA-256 other than the one recorded for the
/// previous pass never converges (another pass runs, or the limit is
/// reached), and one whose contents have the same SHA-256 always does.
/// Across two passes: where the first pass (pass 0) ran on with `.aux`
/// contents `a`, the second converges exactly when its contents `b` have the
/// same SHA-256 as `a`.
pub proof fn law_digest_of_whole_aux(
    p0: TexPasses,
    p1: TexPasses,
    p2: TexPasses,
    a: Seq<u8>,
    b: Seq<u8>,
    s1: PassStep,
    s2: PassStep,
)
    requires
        p0.pass_index() == 0,
        pass_conclusion(p0, p1, Some(a), s1),
        s1 == PassStep::RunTex,
        pass_conclusion(p1, p2, Some(b), s2),
    ensures
        aux_digest_of(Some(a)) == Some(sha256_of(a)),
        aux_digest_of(Some(b)) == Some(sha256_of(b)),
        aux_digest_of(None).is_none(),
        p1.previous_digest() == Some(sha256_of(a)),
        (s2 == PassStep::Converged) == (sha256_of(b) == sha256_of(a)),
        sha256_of(b) != sha256_of(a) ==> s2 == PassStep::RunTex || s2
            == PassStep::PassLimitReached,
{
}

/// After the first pass, concluding a pass on `.aux` contents `aux` whose
/// SHA-256 differs from the recorded digest never converges.
pub proof fn law_changed_aux_reruns(
    before: TexPasses,
    after: TexPasses,
    aux: Seq<u8>,
    step: PassStep,
)
    requires
        before.pass_index() > 0,
        before.previous_digest() != Some(sha256_of(aux)),
        pass_conclusion(before, after, Some(aux), step),
    ensures
        step != PassStep::Converged,
        step == PassStep::RunTex ==> after.previous_digest() == Some(sha256_of(aux)),
{
}

/// A relative input path (one that does not start with `/`) names the
/// primary input under `/input` exactly as given, subdirectories included:
/// the input name is the path itself, the base name is the path without a
/// trailing `.tex` (the path itself where it has none), and the XDV, PDF and
/// `.aux` names are the base name with their extensions.
pub proof fn law_relative_input(job: CompileJob, p: Seq<char>)
    requires
        job.planned_for(p),
        p.len() == 0 || p[0] != '/',
    ensures
        job.input_dir@ == "/input"@,
        job.tex_name@ == p,
        p.len() >= 4 && p.subrange(p.len() - 4, p.len() as int) == ".tex"@ ==> job.base_name@
            == p.take(p.len() - 4),
        !(p.len() >= 4 && p.subrange(p.len() - 4, p.len() as int) == ".tex"@) ==> job.base_name@
            == p,
        job.xdv_name@ == job.base_name@ + ".xdv"@,
        job.pdf_name@ == job.base_name@ + ".pdf"@,
        job.aux_name@ == job.base_name@ + ".aux"@,
{
    reveal_strlit(".tex");
}

} // verus!
