use envy::Error;

#[test]
fn error_impl_std_error() {
    let missing = Error::MissingValue("FOO_BAR".into());
    let custom = Error::Custom("whoops".into());
    assert_eq!(missing.description(), "missing value");
    assert_eq!(custom.description(), "custom error");
    assert_eq!(format!("{:?}", missing), "MissingValue(\"FOO_BAR\")");
    assert_eq!(format!("{:?}", custom), "Custom(\"whoops\")");
    assert_eq!(missing.clone(), missing);
    assert_ne!(missing, custom);
}

#[test]
fn error_display() {
    assert_eq!(
        Error::MissingValue("FOO_BAR".into()).to_string(),
        "missing value for FOO_BAR"
    );

    assert_eq!(Error::Custom("whoops".into()).to_string(), "whoops")
}

#[test]
fn error_constructors() {
    assert_eq!(Error::custom("whoops"), Error::Custom("whoops".into()));
    assert_eq!(Error::missing_field("doom"), Error::MissingValue("doom".into()));
}

#[test]
fn error_while_parsing_names_reason_value_and_key() {
    let error = Error::while_parsing("bad digit", "12x", "PORT");
    assert_eq!(
        error,
        Error::Custom("bad digit while parsing value '12x' provided by PORT".into())
    );
    assert_eq!(
        error.to_string(),
        "bad digit while parsing value '12x' provided by PORT"
    );
}

#[test]
fn error_while_parsing_with_empty_parts() {
    assert_eq!(
        Error::while_parsing("", "", ""),
        Error::Custom(" while parsing value '' provided by ".into())
    );
}

#[test]
fn error_missing_value_with_empty_name() {
    assert_eq!(Error::MissingValue(String::new()).to_string(), "missing value for ");
}
