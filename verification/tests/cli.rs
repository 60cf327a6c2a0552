use std::path::PathBuf;
use super_octo_engine::cli::Opt;

#[test]
fn input_file_is_handed_back_as_given() {
    let opt = Opt { input: PathBuf::from("some dir/transactions.csv") };
    assert_eq!(opt.get_input_file(), PathBuf::from("some dir/transactions.csv"));
    let opt = Opt { input: PathBuf::new() };
    assert_eq!(opt.get_input_file(), PathBuf::new());
}
