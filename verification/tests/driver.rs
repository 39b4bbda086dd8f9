use tectonic_wasi::driver::{
    aux_digest, default_request, exit_code, format_primary_input, format_result,
    input_search_order, is_tex_source, mentions_bibdata, message_prefix, plan_compile,
    CallOutcome, CompileError, InputSource, MessageLevel, PassStep, TexPasses, MAX_TEX_PASSES,
};
use tectonic_wasi::memory_io::MemoryIo;

#[test]
fn plan_for_absolute_and_relative_inputs() {
    let job = plan_compile("/input/sub/paper.tex");
    assert_eq!(job.input_dir, "/input/sub");
    assert_eq!(job.tex_name, "paper.tex");
    assert_eq!(job.base_name, "paper");
    assert_eq!(job.xdv_name, "paper.xdv");
    assert_eq!(job.pdf_name, "paper.pdf");
    assert_eq!(job.aux_name, "paper.aux");
    assert_eq!(job.format_name, "latex");

    let job = plan_compile("notes.tex");
    assert_eq!(job.input_dir, "/input");
    assert_eq!(job.tex_name, "notes.tex");
    assert_eq!(job.base_name, "notes");

    let job = plan_compile("/data/book");
    assert_eq!(job.input_dir, "/data");
    assert_eq!(job.tex_name, "book");
    assert_eq!(job.pdf_name, "book.pdf");

    let job = plan_compile("/");
    assert_eq!(job.input_dir, "/input");
    assert_eq!(job.tex_name, "");
    assert_eq!(job.pdf_name, ".pdf");
}

#[test]
fn bibdata_detection() {
    assert!(mentions_bibdata(b"\\relax\n\\bibdata{refs}\n"));
    assert!(!mentions_bibdata(b"\\relax\n\\bibstyle{plain}\n"));
    assert!(!mentions_bibdata(b""));
    assert!(mentions_bibdata(b"\xff\xfe\\bibdata"));
}

#[test]
fn aux_digest_is_sha256() {
    let d = aux_digest(&Some(b"abc".to_vec())).unwrap();
    let hex: String = d.iter().map(|b| format!("{b:02x}")).collect();
    assert_eq!(hex, "ba7816bf8f01cfea414140de5dae2223b00361a396177a9cb410ff61f20015ad");
    assert_eq!(aux_digest(&None), None);
}

#[test]
fn passes_converge_when_aux_repeats() {
    let mut p = TexPasses::new();
    assert_eq!(p.current_pass(), 0);
    assert_eq!(p.after_tex(false, &Some(b"a".to_vec())), PassStep::RunTex);
    assert_eq!(p.current_pass(), 1);
    assert_eq!(p.after_tex(false, &Some(b"b".to_vec())), PassStep::RunTex);
    assert_eq!(p.current_pass(), 2);
    assert_eq!(p.after_tex(false, &Some(b"b".to_vec())), PassStep::Converged);
}

#[test]
fn passes_converge_without_aux() {
    let mut p = TexPasses::new();
    assert_eq!(p.after_tex(false, &None), PassStep::RunTex);
    assert_eq!(p.after_tex(false, &None), PassStep::Converged);
}

#[test]
fn bibtex_runs_after_first_pass_only() {
    let aux = Some(b"\\bibdata{refs}".to_vec());
    let mut p = TexPasses::new();
    assert_eq!(p.after_tex(false, &aux), PassStep::RunBibtex);
    assert_eq!(p.after_bibtex(&aux), PassStep::RunTex);
    assert_eq!(p.after_tex(false, &aux), PassStep::Converged);
}

#[test]
fn pass_limit_stops_the_loop() {
    let mut p = TexPasses::new();
    for pass in 0..MAX_TEX_PASSES - 1 {
        let aux = Some(vec![pass as u8]);
        assert_eq!(p.after_tex(false, &aux), PassStep::RunTex);
    }
    assert_eq!(p.current_pass(), MAX_TEX_PASSES - 1);
    assert_eq!(p.after_tex(false, &Some(vec![99])), PassStep::PassLimitReached);
}

#[test]
fn tex_errors_fail_the_compile() {
    let mut p = TexPasses::new();
    assert_eq!(p.after_tex(true, &None), PassStep::Failed);
}

#[test]
fn outputs_after_the_passes() {
    let job = plan_compile("doc.tex");
    let mut mem = MemoryIo::new(true);
    assert!(!job.needs_xdvipdfmx(&mem));
    assert_eq!(job.pdf_output(&mem), Err(CompileError::NoPdfOutput));
    mem.insert_file("doc.xdv".to_string(), vec![1]);
    assert!(job.needs_xdvipdfmx(&mem));
    mem.insert_file("doc.pdf".to_string(), b"%PDF".to_vec());
    assert_eq!(job.pdf_output(&mem), Ok(b"%PDF".to_vec()));
}

#[test]
fn format_generation_results() {
    let mut mem = MemoryIo::new(false);
    assert_eq!(format_result(true, &mem), Err(CompileError::FormatErrors));
    assert_eq!(format_result(false, &mem), Err(CompileError::NoFormatOutput));
    mem.insert_file("latex.fmt".to_string(), vec![7, 7]);
    assert_eq!(format_result(false, &mem), Ok(vec![7, 7]));
    assert_eq!(format_primary_input(), "\\input tectonic-format-latex.tex");
}

#[test]
fn error_messages() {
    assert_eq!(CompileError::TexErrors.message(), "TeX engine reported errors");
    assert_eq!(CompileError::NoPdfOutput.message(), "no PDF output was generated");
    assert_eq!(
        CompileError::FormatErrors.message(),
        "TeX engine reported errors during format generation"
    );
    assert_eq!(
        CompileError::NoFormatOutput.message(),
        "format generation completed but no latex.fmt was produced"
    );
}

#[test]
fn input_orders() {
    let (m, f, b) = (InputSource::Memory, InputSource::Filesystem, InputSource::Bundle);
    assert_eq!(input_search_order(false, false), vec![m, f, b]);
    assert_eq!(input_search_order(true, false), vec![b, m, f, b]);
    assert_eq!(input_search_order(false, true), vec![m, b]);
}

#[test]
fn status_codes_and_prefixes() {
    assert_eq!(exit_code(CallOutcome::Succeeded), 0);
    assert_eq!(exit_code(CallOutcome::Failed), 1);
    assert_eq!(exit_code(CallOutcome::Panicked), 2);
    assert_eq!(message_prefix(MessageLevel::Note), "note");
    assert_eq!(message_prefix(MessageLevel::Warning), "warning");
    assert_eq!(message_prefix(MessageLevel::Error), "error");
}

#[test]
fn tex_sources_and_defaults() {
    assert!(is_tex_source("/input/main.tex"));
    assert!(!is_tex_source("/input/main.bib"));
    assert!(!is_tex_source("/input/main.TEX"));
    assert!(!is_tex_source("/input/tex"));
    let r = default_request(None);
    assert_eq!(r.input_path, "input.tex");
    assert_eq!(r.output_dir, "/output");
    assert_eq!(r.bundle_dir, "/bundle");
    let r = default_request(Some("/input/a.tex".to_string()));
    assert_eq!(r.input_path, "/input/a.tex");
}
