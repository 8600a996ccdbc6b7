use umami::error::{UError, UResult};

#[test]
fn chain_is_not_duplicated_across_a_context_rewrap() {
    fn inner() -> UResult<()> {
        let io = std::io::Error::from_raw_os_error(2);
        Err(UError::msg(io.to_string()).context("Opening source file \"x\"".to_string()))
    }
    fn outer() -> UResult<()> {
        inner().map_err(|e| e.context("Error setting parameter replay_file".to_string()))?;
        Ok(())
    }

    let message = outer().unwrap_err().to_text();
    assert_eq!(
        message,
        "Error setting parameter replay_file: Opening source file \"x\": \
         No such file or directory (os error 2)"
    );
}

#[test]
fn no_more_data_text_and_context() {
    let e = UError::NoMoreData;
    assert!(e.is_no_more_data());
    assert_eq!(e.to_text(), "Data from file exhausted");
    let e = e.context("Reading replay file".to_string());
    assert!(!e.is_no_more_data());
    assert_eq!(e.to_text(), "Reading replay file: Data from file exhausted");
    assert_eq!(UError::msg("boom".to_string()).to_text(), "boom");
}
