//! Shell completion scripts: fixed text selected by shell kind.  The texts
//! are the whole output; printing them is the caller's business.

use vstd::prelude::*;

verus! {

/// The shells a completion script can be produced for.
#[derive(Clone, Copy, Debug, PartialEq, Eq, Structural)]
pub enum Shell {
    Bash,
    Zsh,
    Fish,
    Pwsh,
}

pub const BASH_COMPLETION: &'static str = r#"#!/bin/bash
# Bash completion for png2icns

_png2icns_completions() {
    local cur prev opts
    COMPREPLY=()
    cur="${COMP_WORDS[COMP_CWORD]}"
    prev="${COMP_WORDS[COMP_CWORD-1]}"
    
    opts="-i --input -o --output -p --preset -s --sizes -v --verbose -h --help -V --version convert completion"
    presets="basic standard full"
    shells="bash zsh fish powershell"
    
    case "${prev}" in
        -i|--input)
            # Complete PNG files
            COMPREPLY=( $(compgen -f -X "!*.png" -- ${cur}) )
            return 0
            ;;
        -o|--output)
            # Complete ICNS files
            COMPREPLY=( $(compgen -f -X "!*.icns" -- ${cur}) )
            return 0
            ;;
        -p|--preset)
            # Complete presets
            COMPREPLY=( $(compgen -W "${presets}" -- ${cur}) )
            return 0
            ;;
        -s|--sizes)
            # Complete common sizes
            COMPREPLY=( $(compgen -W "16,32,64,128,256,512" -- ${cur}) )
            return 0
            ;;
        completion)
            # Complete shell types
            COMPREPLY=( $(compgen -W "${shells}" -- ${cur}) )
            return 0
            ;;
    esac
    
    COMPREPLY=( $(compgen -W "${opts}" -- ${cur}) )
    return 0
}

complete -F _png2icns_completions png2icns"#;

pub const ZSH_COMPLETION: &'static str = r#"#compdef png2icns

_png2icns() {
    local context state line
    typeset -A opt_args

    _arguments \
        '(-i --input){-i,--input}'[Input PNG file path]:PNG file:_files -g "*.png"' \
        '(-o --output){-o,--output}'[Output ICNS file path]:ICNS file:_files -g "*.icns"' \
        '(-p --preset){-p,--preset}'[Quality preset]:preset:(basic standard full)' \
        '(-s --sizes){-s,--sizes}'[Custom sizes]:sizes:' \
        '(-v --verbose){-v,--verbose}'[Verbose output]' \
        '(-h --help){-h,--help}'[Show help]' \
        '(-V --version){-V,--version}'[Show version]' \
        '1: :_png2icns_commands' \
        '*:: :->args'

    case $state in
        args)
            case $words[1] in
                convert)
                    _arguments \
                        '(-i --input){-i,--input}'[Input PNG file path]:PNG file:_files -g "*.png"' \
                        '(-o --output){-o,--output}'[Output ICNS file path]:ICNS file:_files -g "*.icns"'
                    ;;
                completion)
                    _arguments \
                        '1:shell:(bash zsh fish powershell)'
                    ;;
            esac
            ;;
    esac
}

_png2icns_commands() {
    local commands
    commands=(
        'convert:Convert PNG to ICNS'
        'completion:Generate shell completion scripts'
    )
    _describe 'commands' commands
}

_png2icns "$@""#;

pub const FISH_COMPLETION: &'static str = r#"# Fish completion for png2icns

complete -c png2icns -s i -l input -d "Input PNG file path" -F
complete -c png2icns -s o -l output -d "Output ICNS file path" -F
complete -c png2icns -s p -l preset -d "Quality preset" -xa "basic standard full"
complete -c png2icns -s s -l sizes -d "Custom sizes"
complete -c png2icns -s v -l verbose -d "Verbose output"
complete -c png2icns -s h -l help -d "Show help"
complete -c png2icns -s V -l version -d "Show version"

# Subcommands
complete -c png2icns -f -n "__fish_use_subcommand" -a "convert" -d "Convert PNG to ICNS"
complete -c png2icns -f -n "__fish_use_subcommand" -a "completion" -d "Generate shell completion scripts"

# Completion subcommand
complete -c png2icns -f -n "__fish_seen_subcommand_from completion" -a "bash zsh fish powershell" -d "Shell type"

# Convert subcommand
complete -c png2icns -n "__fish_seen_subcommand_from convert" -s i -l input -d "Input PNG file path" -F
complete -c png2icns -n "__fish_seen_subcommand_from convert" -s o -l output -d "Output ICNS file path" -F"#;

pub const POWERSHELL_COMPLETION: &'static str = r#"# PowerShell completion for png2icns

Register-ArgumentCompleter -Native -CommandName png2icns -ScriptBlock {
    param($commandName, $wordToComplete, $cursorPosition)
    
    $completions = @()
    
    switch -regex ($wordToComplete) {
        '^-i$|^--input$' {
            $completions += Get-ChildItem -Path "*.png" | ForEach-Object { $_.Name }
        }
        '^-o$|^--output$' {
            $completions += @("output.icns")
        }
        '^-p$|^--preset$' {
            $completions += @("basic", "standard", "full")
        }
        '^-s$|^--sizes$' {
            $completions += @("16,32,64,128,256,512")
        }
        '^completion$' {
            $completions += @("bash", "zsh", "fish", "powershell")
        }
        default {
            $completions += @("-i", "--input", "-o", "--output", "-p", "--preset", "-s", "--sizes", "-v", "--verbose", "-h", "--help", "-V", "--version", "convert", "completion")
        }
    }
    
    $completions | Where-Object { $_ -like "$wordToComplete*" }
}"#;

/// The completion script text for each shell.
pub open spec fn completion_script(shell: Shell) -> Seq<char> {
    match shell {
        Shell::Bash => BASH_COMPLETION@,
        Shell::Zsh => ZSH_COMPLETION@,
        Shell::Fish => FISH_COMPLETION@,
        Shell::Pwsh => POWERSHELL_COMPLETION@,
    }
}

/// Returns the completion script for `shell`, exactly the text that the
/// command prints.
pub fn generate_completion(shell: Shell) -> (script: String)
    ensures
        script@ == completion_script(shell),
{
    match shell {
        Shell::Bash => String::from_str(BASH_COMPLETION),
        Shell::Zsh => String::from_str(ZSH_COMPLETION),
        Shell::Fish => String::from_str(FISH_COMPLETION),
        Shell::Pwsh => String::from_str(POWERSHELL_COMPLETION),
    }
}

} // verus!
