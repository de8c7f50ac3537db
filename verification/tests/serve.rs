use fart::serve::{
    is_image_extension, liked_file_name, liked_message, user_const_variable, user_consts_script,
    OutputRelay, Serve,
};

#[test]
fn serve_keeps_its_settings() {
    let serve = Serve::new(String::from("."), 9090);
    assert_eq!(serve.project(), ".");
    assert_eq!(serve.port(), 9090);
    assert!(serve.extra().is_empty());
    assert_eq!(serve.address(), "127.0.0.1:9090");
    assert_eq!(Serve::new(String::from("x"), 0).address(), "127.0.0.1:0");
    assert_eq!(Serve::new(String::from("x"), u16::MAX).address(), "127.0.0.1:65535");
}

#[test]
fn set_extra_copies_the_arguments() {
    let mut serve = Serve::new(String::from("drawings/waves"), 8080);
    let extra = vec![String::from("--release"), String::from("--seed"), String::from("7")];
    serve.set_extra(&extra);
    assert_eq!(serve.extra(), &extra);
    assert_eq!(serve.project(), "drawings/waves");
    assert_eq!(serve.port(), 8080);
    let copy = serve.clone();
    assert_eq!(copy.extra(), &extra);
}

#[test]
fn set_extra_with_no_arguments() {
    let mut serve = Serve::new(String::from("."), 9090);
    serve.set_extra(&[]);
    assert!(serve.extra().is_empty());
}

#[test]
fn relay_passes_output_on_outside_of_a_list_of_parameters() {
    let mut relay = OutputRelay::new();
    assert_eq!(relay.on_output("Compiling waves\n"), Some(String::from("Compiling waves\n")));
    assert_eq!(relay.on_output(""), Some(String::new()));
    assert_eq!(relay.on_output("Finished\n"), Some(String::from("Finished\n")));
}

#[test]
fn relay_holds_a_list_of_parameters_back_until_it_is_complete() {
    let mut relay = OutputRelay::new();
    assert_eq!(relay.on_output("before\n"), Some(String::from("before\n")));
    assert_eq!(relay.on_output("fart: PARAMS START\n"), None);
    assert_eq!(relay.on_output("width=3\n"), None);
    assert_eq!(relay.on_output("height=4\n"), None);
    assert_eq!(
        relay.on_output("fart: PARAMS END\n"),
        Some(String::from("fart: PARAMS START\nwidth=3\nheight=4\nfart: PARAMS END\n"))
    );
    assert_eq!(relay.on_output("after\n"), Some(String::from("after\n")));
}

#[test]
fn relay_takes_a_whole_list_in_one_piece() {
    let mut relay = OutputRelay::new();
    let piece = "x fart: PARAMS START a=1 fart: PARAMS END y";
    assert_eq!(relay.on_output(piece), Some(String::from(piece)));
    assert_eq!(relay.on_output("next"), Some(String::from("next")));
}

#[test]
fn relay_ends_a_list_even_where_the_piece_starts_the_next() {
    let mut relay = OutputRelay::new();
    assert_eq!(relay.on_output("fart: PARAMS START"), None);
    let piece = "fart: PARAMS END fart: PARAMS START";
    assert_eq!(
        relay.on_output(piece),
        Some(String::from("fart: PARAMS STARTfart: PARAMS END fart: PARAMS START"))
    );
}

#[test]
fn relay_needs_the_whole_marker() {
    let mut relay = OutputRelay::new();
    assert_eq!(relay.on_output("fart: PARAMS STAR"), Some(String::from("fart: PARAMS STAR")));
    assert_eq!(relay.on_output("fart: params start"), Some(String::from("fart: params start")));
    assert_eq!(relay.on_output("fart: PARAMS START"), None);
    assert_eq!(relay.on_output("fart: PARAMS EN"), None);
    assert_eq!(
        relay.on_output("D fart: PARAMS END"),
        Some(String::from("fart: PARAMS STARTfart: PARAMS END fart: PARAMS END"))
    );
}

#[test]
fn user_constants_become_environment_variables() {
    assert_eq!(user_const_variable("WIDTH"), "FART_USER_CONST_WIDTH");
    assert_eq!(user_const_variable(""), "FART_USER_CONST_");
}

#[test]
fn script_of_user_constants() {
    let consts = vec![
        (String::from("FART_USER_CONST_WIDTH"), String::from("3")),
        (String::from("FART_USER_CONST_NAME"), String::from("waves")),
    ];
    assert_eq!(
        user_consts_script(&consts),
        "# fart user consts\n\
         #\n\
         # To re-establish this user const environment, run:\n\
         #\n\
         #    $ source user_consts.sh\n\n\
         export FART_USER_CONST_WIDTH=3\n\
         export FART_USER_CONST_NAME=waves\n"
    );
    assert_eq!(
        user_consts_script(&Vec::new()),
        "# fart user consts\n#\n# To re-establish this user const environment, run:\n#\n#    $ source user_consts.sh\n\n"
    );
}

#[test]
fn only_drawings_are_served_as_images() {
    assert!(is_image_extension(Some("svg")));
    assert!(!is_image_extension(Some("SVG")));
    assert!(!is_image_extension(Some("png")));
    assert!(!is_image_extension(Some("svgz")));
    assert!(!is_image_extension(Some("")));
    assert!(!is_image_extension(None));
}

#[test]
fn names_of_a_liked_drawing() {
    assert_eq!(
        liked_file_name("2020-02-29-12-30-59-000000001"),
        "liked_2020-02-29-12-30-59-000000001.svg"
    );
    assert_eq!(liked_message("2020-02-29-12-30-59-000000001"), "Liked 2020-02-29-12-30-59-000000001");
}
