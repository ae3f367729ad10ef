use distill::api::{ApiHandler, Output};

fn sample(name: &str) -> Output {
    Output::new(name.to_string())
}

#[test]
fn output_carries_its_field() {
    let out = Output::new("WORKS".to_string());
    assert_eq!(out.field, "WORKS");
}

#[test]
fn api_handler_round_trips_its_function() {
    let handler: ApiHandler<fn(&str) -> Output, (), Output> = ApiHandler::new(sample);
    let f = handler.into_inner();
    assert_eq!(f("hello").field, "hello");
}
