use gitstatus::invoker::{command_output, CommandError, Completion};

#[test]
fn command_that_did_not_run_is_a_failure() {
    assert_eq!(command_output(&Completion::NotRun), Err(CommandError::NotRun));
}

#[test]
fn command_with_nonzero_status_is_a_failure() {
    let completion = Completion::Exited { success: false, stdout: b"fatal\n".to_vec() };
    assert_eq!(command_output(&completion), Err(CommandError::Unsuccessful));
    let silent = Completion::Exited { success: false, stdout: Vec::new() };
    assert_eq!(command_output(&silent), Err(CommandError::Unsuccessful));
}

#[test]
fn successful_command_gives_its_trimmed_output() {
    let completion = Completion::Exited { success: true, stdout: b"main\n".to_vec() };
    assert_eq!(command_output(&completion), Ok("main".to_string()));
    let padded = Completion::Exited { success: true, stdout: b"  a.txt\nb.txt \n\n".to_vec() };
    assert_eq!(command_output(&padded), Ok("a.txt\nb.txt".to_string()));
}

#[test]
fn successful_command_without_output_gives_empty_text() {
    let completion = Completion::Exited { success: true, stdout: Vec::new() };
    assert_eq!(command_output(&completion), Ok(String::new()));
    let blank = Completion::Exited { success: true, stdout: b"\n".to_vec() };
    assert_eq!(command_output(&blank), Ok(String::new()));
}

#[test]
fn output_is_decoded_as_utf8() {
    let completion =
        Completion::Exited { success: true, stdout: vec![0x63, 0x61, 0x66, 0xC3, 0xA9, 0x0A] };
    assert_eq!(command_output(&completion), Ok("caf\u{e9}".to_string()));
}

#[test]
fn ill_formed_output_is_decoded_lossily() {
    let completion = Completion::Exited { success: true, stdout: vec![0x66, 0xFF, 0x6F, 0x0A] };
    assert_eq!(command_output(&completion), Ok("f\u{fffd}o".to_string()));
    let cut = Completion::Exited { success: true, stdout: vec![0x61, 0xC3] };
    assert_eq!(command_output(&cut), Ok("a\u{fffd}".to_string()));
}
