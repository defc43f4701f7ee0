use invocation_bridge::auth::{LoginWithEmailInput, SignUpInput};
use invocation_bridge::codec::{
    decode_login, decode_sign_up, decode_string_payload, encode_login, encode_sign_up,
    encode_string_payload, Payload,
};

fn payload_text(p: &Payload) -> String {
    p.data.iter().collect()
}

fn payload_of(text: &str) -> Payload {
    Payload {
        data: text.chars().collect(),
    }
}

#[test]
fn sign_up_payload_shape() {
    let input = SignUpInput {
        email: "a@b.com".to_string(),
        password: "secret".to_string(),
        first_name: "A".to_string(),
        last_name: "B".to_string(),
    };
    let p = encode_sign_up(&input);
    assert_eq!(
        payload_text(&p),
        "{\"email\":\"a@b.com\",\"password\":\"secret\",\"first_name\":\"A\",\"last_name\":\"B\"}"
    );
}

#[test]
fn login_payload_shape() {
    let input = LoginWithEmailInput {
        email: "a@b.com".to_string(),
        password: "secret".to_string(),
    };
    let p = encode_login(&input);
    assert_eq!(
        payload_text(&p),
        "{\"email\":\"a@b.com\",\"password\":\"secret\"}"
    );
}

#[test]
fn string_payload_shape_and_escaping() {
    let s = "say \"hi\" \\ bye".to_string();
    let p = encode_string_payload(&s);
    assert_eq!(payload_text(&p), "\"say \\\"hi\\\" \\\\ bye\"");
}

#[test]
fn round_trip_sign_up() {
    let input = SignUpInput {
        email: "a@b.com".to_string(),
        password: "secret".to_string(),
        first_name: "A".to_string(),
        last_name: "B".to_string(),
    };
    let decoded = decode_sign_up(&encode_sign_up(&input)).unwrap();
    assert_eq!(decoded.email, input.email);
    assert_eq!(decoded.password, input.password);
    assert_eq!(decoded.first_name, input.first_name);
    assert_eq!(decoded.last_name, input.last_name);
}

#[test]
fn round_trip_sign_up_with_escapes() {
    let input = SignUpInput {
        email: "quo\"te@b.com".to_string(),
        password: "ba\\ck\"slash".to_string(),
        first_name: "\"".to_string(),
        last_name: "\\".to_string(),
    };
    let decoded = decode_sign_up(&encode_sign_up(&input)).unwrap();
    assert_eq!(decoded.email, input.email);
    assert_eq!(decoded.password, input.password);
    assert_eq!(decoded.first_name, input.first_name);
    assert_eq!(decoded.last_name, input.last_name);
}

#[test]
fn round_trip_login() {
    let input = LoginWithEmailInput {
        email: "A@B.com".to_string(),
        password: "s\"e\\cret".to_string(),
    };
    let decoded = decode_login(&encode_login(&input)).unwrap();
    assert_eq!(decoded.email, input.email);
    assert_eq!(decoded.password, input.password);
}

#[test]
fn round_trip_string_payload() {
    for s in ["", "plain", "with \"quotes\"", "with \\ backslash", "mixed \\\" end\\"] {
        let owned = s.to_string();
        let decoded = decode_string_payload(&encode_string_payload(&owned)).unwrap();
        assert_eq!(decoded, owned);
    }
}

#[test]
fn decode_rejects_garbage() {
    assert!(decode_string_payload(&payload_of("nonsense")).is_err());
    assert!(decode_sign_up(&payload_of("nonsense")).is_err());
    assert!(decode_login(&payload_of("{\"email\":42}")).is_err());
}

#[test]
fn decode_rejects_unterminated_string() {
    assert!(decode_string_payload(&payload_of("\"abc")).is_err());
    assert!(decode_string_payload(&payload_of("\"abc\\")).is_err());
    assert!(decode_string_payload(&payload_of("\"bad escape \\n\"")).is_err());
}

#[test]
fn decode_rejects_trailing_characters() {
    assert!(decode_string_payload(&payload_of("\"abc\" ")).is_err());
    let input = LoginWithEmailInput {
        email: "a@b.com".to_string(),
        password: "pw".to_string(),
    };
    let mut p = encode_login(&input);
    p.data.push(' ');
    assert!(decode_login(&p).is_err());
}

#[test]
fn decode_rejects_mismatched_shape() {
    // a sign-up payload is not a login payload, and the other way round
    let sign_up = encode_sign_up(&SignUpInput {
        email: "a@b.com".to_string(),
        password: "pw".to_string(),
        first_name: "A".to_string(),
        last_name: "B".to_string(),
    });
    assert!(decode_login(&sign_up).is_err());
    let login = encode_login(&LoginWithEmailInput {
        email: "a@b.com".to_string(),
        password: "pw".to_string(),
    });
    assert!(decode_sign_up(&login).is_err());
    assert!(decode_string_payload(&login).is_err());
}

#[test]
fn empty_fields_round_trip() {
    let input = SignUpInput {
        email: String::new(),
        password: String::new(),
        first_name: String::new(),
        last_name: String::new(),
    };
    let p = encode_sign_up(&input);
    assert_eq!(
        payload_text(&p),
        "{\"email\":\"\",\"password\":\"\",\"first_name\":\"\",\"last_name\":\"\"}"
    );
    let decoded = decode_sign_up(&p).unwrap();
    assert_eq!(decoded.email, "");
    assert_eq!(decoded.last_name, "");
}
