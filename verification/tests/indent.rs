use rubiks_solver::indent::sample_input;

#[test]
fn sample_input_loses_its_common_indentation() {
    assert_eq!(sample_input(), "....\n....\n    ....");
}
