use linux_post_install::shell::{command_display, run_status, shell_quote, RunOutcome};

#[test]
fn plain_words_are_left_alone() {
    assert_eq!(shell_quote("apt-get"), "apt-get");
    assert_eq!(shell_quote("a_b=c+d.e,f/g:h@i"), "a_b=c+d.e,f/g:h@i");
    assert_eq!(shell_quote(""), "");
    assert_eq!(shell_quote("https://install.danklinux.com"), "https://install.danklinux.com");
}

#[test]
fn other_words_are_single_quoted() {
    assert_eq!(shell_quote("a b"), "'a b'");
    assert_eq!(shell_quote("it's"), "'it'\\''s'");
    assert_eq!(shell_quote("''"), "''\\'''\\'''");
    assert_eq!(shell_quote("$HOME"), "'$HOME'");
    assert_eq!(shell_quote("caf\u{e9}"), "'caf\u{e9}'");
}

#[test]
fn commands_are_displayed_quoted() {
    let args: Vec<String> = vec!["-c".into(), "curl -fsSL x | sh".into()];
    assert_eq!(command_display("sh", &args), "sh -c 'curl -fsSL x | sh'");
    assert_eq!(command_display("true", &[]), "true");
    assert_eq!(command_display("my prog", &["".to_string()]), "'my prog' ");
}

#[test]
fn run_results() {
    assert_eq!(
        run_status("sudo", "sudo x", RunOutcome::Exited { success: true, status: "exit status: 0".into() }),
        Ok(())
    );
    assert_eq!(
        run_status("sudo", "sudo x", RunOutcome::Exited { success: false, status: "exit status: 2".into() }),
        Err("Command failed with exit status: 2: sudo x".to_string())
    );
    assert_eq!(
        run_status("sudo", "sudo x", RunOutcome::Failed("No such file or directory".into())),
        Err("Could not run sudo: No such file or directory".to_string())
    );
}
