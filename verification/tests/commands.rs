use ragrig_cli::ansi::{cut_sequences, strip_ansi};
use ragrig_cli::command::Command;
use ragrig_cli::console::{
    cmd_help, demo_banner, demo_first_question, has_escape, read_line, LineStep,
};

#[test]
fn parse_unknown_slash_command_is_not_query() {
    let cmd = Command::from("/foobar");
    assert!(matches!(cmd, Command::Unknown(_)));
}

#[test]
fn parse_unknown_slash_with_args() {
    let cmd = Command::from("/bogus arg1 arg2");
    assert!(matches!(cmd, Command::Unknown(c) if c.contains("arg1")));
}

#[test]
fn parse_plain_text_is_rag_query() {
    let cmd = Command::from("What is RAG?");
    assert!(matches!(cmd, Command::RagQuery(q) if q == "What is RAG?"));
}

#[test]
fn parse_corpus_no_args() {
    let cmd = Command::from("/corpus");
    assert!(matches!(cmd, Command::Corpus(s) if s.is_empty()));
}

#[test]
fn parse_corpus_toggle() {
    let cmd = Command::from("/corpus papers on");
    assert!(matches!(cmd, Command::Corpus(s) if s == "papers on"));
}

#[test]
fn corpus_command_parses_dyn_toggle() {
    let on = Command::from("/corpus dyn on");
    assert!(matches!(on, Command::Corpus(s) if s == "dyn on"));
    let off = Command::from("/corpus dyn off");
    assert!(matches!(off, Command::Corpus(s) if s == "dyn off"));
}

#[test]
fn parse_memory_no_args_does_not_panic() {
    let cmd = Command::from("/memory");
    assert!(matches!(cmd, Command::Memory(s) if s.is_empty()));
}

#[test]
fn parse_memory_with_args() {
    let cmd = Command::from("/memory transcript");
    assert!(matches!(cmd, Command::Memory(s) if s == "transcript"));
}

#[test]
fn parse_hist_no_args_does_not_panic() {
    let cmd = Command::from("/hist");
    assert!(matches!(cmd, Command::Hist(s) if s.is_empty()));
}

#[test]
fn parse_chat_command_recognised() {
    let cmd = Command::from("/chat ollama");
    assert!(matches!(cmd, Command::Chat(s) if s == "ollama"));
}

#[test]
fn parse_embed_no_args_does_not_panic() {
    let cmd = Command::from("/embed");
    assert!(matches!(cmd, Command::Embed(s) if s.is_empty()));
}

#[test]
fn parse_refs_no_args_does_not_panic() {
    let cmd = Command::from("/refs");
    assert!(matches!(cmd, Command::ExtractRefs(s) if s.is_empty()));
}

#[test]
fn parse_slash_exit() {
    assert!(matches!(Command::from("/exit"), Command::Exit));
}

#[test]
fn parse_slash_bye() {
    assert!(matches!(Command::from("/bye"), Command::Exit));
}

#[test]
fn plain_farewells_end_the_session() {
    assert!(matches!(Command::from("exit"), Command::Exit));
    assert!(matches!(Command::from("  quit \n"), Command::Exit));
    assert!(matches!(Command::from("exit now"), Command::RagQuery(q) if q == "exit now"));
    assert!(matches!(Command::from("Exit"), Command::RagQuery(_)));
}

#[test]
fn commands_with_a_blank_take_short_arguments() {
    assert!(matches!(Command::from("/get 5"), Command::GetPapers(s) if s == "5"));
    assert!(matches!(Command::from("/arxiv x"), Command::SearchArxiv(s) if s == "x"));
    assert!(matches!(Command::from("/scholar  rag "), Command::Scholar(s) if s == "rag"));
    assert!(matches!(Command::from("/search topk 3"), Command::Search(s) if s == "topk 3"));
    assert!(matches!(Command::from("/get"), Command::Unknown(s) if s == "/get"));
    assert!(matches!(Command::from("/download"), Command::Unknown(_)));
    assert!(matches!(Command::from("/arxiv "), Command::Unknown(s) if s == "/arxiv"));
}

#[test]
fn search_words_alone_ignore_case() {
    assert!(matches!(Command::from("/Scholar"), Command::Scholar(s) if s.is_empty()));
    assert!(matches!(Command::from("/SEARCH"), Command::Search(s) if s.is_empty()));
    assert!(matches!(Command::from("/Search topk 3"), Command::Unknown(_)));
}

#[test]
fn loose_arguments_need_more_than_one_byte() {
    assert!(matches!(Command::from("/chats"), Command::Chat(s) if s.is_empty()));
    assert!(matches!(Command::from("/chatss"), Command::Chat(s) if s == "ss"));
    assert!(matches!(Command::from("/chaté"), Command::Chat(s) if s == "é"));
    assert!(matches!(Command::from("/log x"), Command::Log(s) if s == "x"));
    assert!(matches!(Command::from("/attach clear"), Command::Attach(s) if s == "clear"));
    assert!(matches!(Command::from("/refs bayes"), Command::ExtractRefs(s) if s == "bayes"));
    assert!(matches!(Command::from("/embed none"), Command::Embed(s) if s == "none"));
    assert!(matches!(Command::from("/chunker token"), Command::Chunker(s) if s == "token"));
    assert!(matches!(Command::from("/hist list"), Command::Hist(s) if s == "list"));
    assert!(matches!(Command::from("/prompt reset"), Command::Prompt(s) if s == "reset"));
    assert!(matches!(Command::from("/parser pdf sink"), Command::Parser(s) if s == "pdf sink"));
    assert!(matches!(Command::from("/profile list"), Command::Profile(s) if s == "list"));
    assert!(matches!(Command::from("/help"), Command::Help));
    assert!(matches!(Command::from("/helpme"), Command::Unknown(_)));
}

#[test]
fn surrounding_space_is_ignored() {
    let a = format!("{:?}", Command::from("\u{a0} /memory off\u{3000}\t"));
    let b = format!("{:?}", Command::from("/memory off"));
    assert_eq!(a, b);
}

#[test]
fn download_arguments_lose_escape_sequences() {
    let cmd = Command::from("/download \u{1b}[200~https://a.org/x.pdf\u{1b}[201~");
    assert!(matches!(cmd, Command::Download(s) if s == "https://a.org/x.pdf"));
}

#[test]
fn escape_sequences_are_removed() {
    assert_eq!(strip_ansi("a\u{1b}[31mred\u{1b}[0m b"), "ared b");
    assert_eq!(strip_ansi("\u{1b}[200~paste"), "paste");
    assert_eq!(strip_ansi("cut\u{1b}[12;3"), "cut");
    assert_eq!(strip_ansi("\u{1b}[1\u{e9}x"), "x");
}

#[test]
fn plain_text_is_kept() {
    assert_eq!(strip_ansi("no escapes [here]"), "no escapes [here]");
    assert_eq!(strip_ansi("lone \u{1b} escape"), "lone \u{1b} escape");
    assert_eq!(strip_ansi(""), "");
}

#[test]
fn lines_lead_to_steps() {
    assert!(matches!(read_line("   "), LineStep::Skip));
    assert!(matches!(read_line(" quit "), LineStep::Leave { entry } if entry == "quit"));
    match read_line("  what is x? ") {
        LineStep::Run { entry, command } => {
            assert_eq!(entry, "what is x?");
            assert!(matches!(command, Command::RagQuery(q) if q == "what is x?"));
        }
        other => panic!("unexpected {other:?}"),
    }
}

#[test]
fn escape_key_is_recognised() {
    assert!(has_escape(&[b'a', 0x1b, b'b']));
    assert!(!has_escape(b"abc"));
    assert!(!has_escape(&[]));
}

#[test]
fn help_names_every_command() {
    let lines = cmd_help();
    assert_eq!(lines.len(), 20);
    assert_eq!(lines[19], "exit / quit     — end the session");
    for word in [
        "/attach", "/download", "/scholar", "/arxiv", "/search", "/get", "/refs", "/chat", "/embed",
        "/chunker", "/memory", "/hist", "/prompt", "/log", "/parser", "/profile", "/corpus",
    ] {
        assert!(lines.iter().any(|l| l.starts_with(word)), "{word}");
    }
}

#[test]
fn demonstration_greets() {
    let lines = demo_banner();
    assert_eq!(lines.len(), 10);
    assert_eq!(lines[0], "Welcome to ragrig demo mode!");
    assert_eq!(
        lines[6],
        "Demo mode requires the Ollama models 'nomic-embed-text:latest' and 'llama3.2:3b'."
    );
    assert_eq!(demo_first_question(), "What is Bayesian Statistics?");
}

#[test]
fn sequences_are_cut_at_marked_characters() {
    let ends = vec![false, false, false, false, true, false];
    assert_eq!(cut_sequences("a\u{1b}[1mb", &ends), "ab");
    let none = vec![false; 6];
    assert_eq!(cut_sequences("a\u{1b}[1mb", &none), "a");
    let early = vec![true; 6];
    assert_eq!(cut_sequences("a\u{1b}[1mb", &early), "amb");
}
