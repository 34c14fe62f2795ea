use willow_sync::request::RequestFormat;
use willow_sync::request::get_request_format;

#[test]
fn request_format_try_from() {
    let rf = RequestFormat::try_from("raw");
    assert_eq!(rf, Ok(RequestFormat::Raw));
    let rf = RequestFormat::try_from("car");
    assert_eq!(rf, Ok(RequestFormat::Car));

    let rf = RequestFormat::try_from("RaW");
    assert_eq!(rf, Ok(RequestFormat::Raw));

    let rf = RequestFormat::try_from("UNKNOWN");
    assert!(rf.is_err());
}

#[test]
fn request_format_mime_types() {
    assert_eq!(
        RequestFormat::try_from("application/vnd.ipld.raw"),
        Ok(RequestFormat::Raw)
    );
    assert_eq!(
        RequestFormat::try_from("Application/VND.IPLD.CAR"),
        Ok(RequestFormat::Car)
    );
    assert_eq!(RequestFormat::Raw.to_string(), "application/vnd.ipld.raw");
    assert_eq!(RequestFormat::Car.to_string(), "application/vnd.ipld.car");
}

#[test]
fn request_format_error_message() {
    let rf = RequestFormat::try_from("UNKNOWN");
    assert_eq!(rf, Err("unsuported format: UNKNOWN".to_string()));
}

#[test]
fn request_format_from_headers() {
    let values = vec!["text/plain".to_string(), "car".to_string()];
    assert_eq!(
        RequestFormat::try_from_headers(&values),
        Ok(RequestFormat::Car)
    );
    let none = vec!["text/plain".to_string()];
    assert_eq!(
        RequestFormat::try_from_headers(&none),
        Err("unsuported format: none".to_string())
    );
}

#[test]
fn request_format_query_wins() {
    let values = vec!["car".to_string()];
    let r = get_request_format(&values, &Some("raw".to_string()));
    assert_eq!(r, Ok(RequestFormat::Raw));
    let r = get_request_format(&values, &Some(String::new()));
    assert_eq!(r, Ok(RequestFormat::Car));
    let r = get_request_format(&values, &None);
    assert_eq!(r, Ok(RequestFormat::Car));
}
