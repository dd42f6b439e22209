use png2icns::{generate_completion, Shell};

#[test]
fn test_bash_completion_text() {
    let script = generate_completion(Shell::Bash);
    assert!(script.starts_with("#!/bin/bash"));
    assert!(script.ends_with("complete -F _png2icns_completions png2icns"));
}

#[test]
fn test_other_completion_texts() {
    assert!(generate_completion(Shell::Zsh).starts_with("#compdef png2icns"));
    assert!(generate_completion(Shell::Fish).starts_with("# Fish completion for png2icns"));
    assert!(generate_completion(Shell::Pwsh).starts_with("# PowerShell completion for png2icns"));
}
