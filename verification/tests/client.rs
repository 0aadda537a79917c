use ragent::client::{
    first_choice_text, CompletionChoice, CompletionClient, CompletionResponse, UpstreamError,
};

#[test]
fn missing_credential_fails_before_any_network_call() {
    match CompletionClient::new(None) {
        Err(e) => assert_eq!(e.missing, "OPENAI_API_KEY"),
        Ok(_) => panic!("construction must fail without the credential"),
    }
}

#[test]
fn present_credential_constructs() {
    match CompletionClient::new(Some(String::from("sk-test"))) {
        Ok(c) => {
            assert_eq!(c.api_key, "sk-test");
            assert_eq!(c.base_url, "https://api.openai.com/v1/");
        }
        Err(_) => panic!("construction must succeed with a credential"),
    }
}

fn response(texts: &[&str]) -> CompletionResponse {
    CompletionResponse {
        id: String::from("cmpl-1"),
        object: String::from("text_completion"),
        created: 1,
        model: String::from("m"),
        choices: texts
            .iter()
            .map(|t| CompletionChoice { text: String::from(*t) })
            .collect(),
    }
}

#[test]
fn first_choice_is_taken_verbatim() {
    let resp = response(&["  first \n", "second"]);
    match first_choice_text(&resp) {
        Ok(t) => assert_eq!(t, "  first \n"),
        Err(_) => panic!("a response with choices must decode"),
    }
}

#[test]
fn empty_choices_is_a_decode_error() {
    let resp = response(&[]);
    match first_choice_text(&resp) {
        Err(UpstreamError::Decode { .. }) => {}
        other => panic!("expected a decode error, got {:?}", other),
    }
}
