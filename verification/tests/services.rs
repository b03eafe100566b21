use room_hub::accounts::{ChangeNickName, ChangePassword, LoginUser, RegisterUser, User, UserInfo};
use room_hub::auth::{
    default_secret_for, get_secret, token_from_header, AuthError, BearerToken, Claims, NotText,
    RefreshResponse, ACCESS_TOKEN_TTL_SECS,
};
use room_hub::payload::{classify, is_base64_text, text_payload, TextPayload};
use room_hub::replies::{refresh_answer, Answer, Endpoint};

#[test]
fn missing_header_is_unauthorized() {
    assert_eq!(token_from_header(None), Err(AuthError::MissingToken));
    assert_eq!(AuthError::MissingToken.status(), 401);
    assert_eq!(AuthError::MissingToken.message(), "缺少令牌");
}

#[test]
fn header_that_is_not_text_is_refused() {
    assert_eq!(token_from_header(Some(Err(NotText))), Err(AuthError::InvalidHeader));
    assert_eq!(AuthError::InvalidHeader.status(), 400);
    assert_eq!(AuthError::InvalidHeader.message(), "无效的header");
}

#[test]
fn header_without_bearer_scheme_is_refused() {
    assert_eq!(token_from_header(Some(Ok("Basic abc"))), Err(AuthError::InvalidToken));
    assert_eq!(token_from_header(Some(Ok("bearer abc"))), Err(AuthError::InvalidToken));
    assert_eq!(token_from_header(Some(Ok("Bearer"))), Err(AuthError::InvalidToken));
    assert_eq!(token_from_header(Some(Ok(""))), Err(AuthError::InvalidToken));
    assert_eq!(AuthError::InvalidToken.status(), 400);
    assert_eq!(AuthError::InvalidToken.message(), "无效的令牌格式");
}

#[test]
fn bearer_token_is_trimmed() {
    assert_eq!(token_from_header(Some(Ok("Bearer abc.def.ghi"))), Ok("abc.def.ghi".to_string()));
    assert_eq!(token_from_header(Some(Ok("Bearer   abc  "))), Ok("abc".to_string()));
    assert_eq!(token_from_header(Some(Ok("Bearer "))), Ok(String::new()));
    assert_eq!(token_from_header(Some(Ok("Bearer Bearer x"))), Ok("Bearer x".to_string()));
}

#[test]
fn claims_expire_after_a_quarter_of_an_hour() {
    assert_eq!(ACCESS_TOKEN_TTL_SECS, 15 * 60);
    let claims = Claims::issue("id-1", "alice", 1_700_000_000);
    assert_eq!(claims.user_id, "id-1");
    assert_eq!(claims.username, "alice");
    assert_eq!(claims.iat, 1_700_000_000);
    assert_eq!(claims.exp, 1_700_000_900);
}

#[test]
fn validated_claims_become_the_bearer() {
    let claims = Claims::issue("id-1", "alice", 10);
    let bearer = BearerToken::from_validation(Ok(claims)).ok().expect("bearer");
    assert_eq!(bearer.user_id, "id-1");
    assert_eq!(bearer.username, "alice");
    let refused = BearerToken::from_validation(Err("Invalid token: expired".to_string()));
    assert_eq!(refused.err(), Some(AuthError::InvalidToken));
    let direct = BearerToken::from_claims(Claims::issue("id-2", "bob", 0));
    assert_eq!(direct.user_id, "id-2");
    assert_eq!(direct.username, "bob");
}

#[test]
fn configured_secret_wins() {
    assert_eq!(get_secret(Some("s3cret".to_string()), "JWT_SECRET"), "s3cret");
    assert_eq!(get_secret(Some(String::new()), "JWT_SECRET"), "");
}

#[test]
fn missing_secret_falls_back_to_the_default() {
    assert_eq!(
        get_secret(None, "JWT_SECRET"),
        "default-jwt_secret-secret-change-in-production"
    );
    assert_eq!(default_secret_for("x"), "default-x-secret-change-in-production");
    assert_eq!(default_secret_for(""), "default--secret-change-in-production");
}

#[test]
fn refresh_response_holds_its_fields() {
    let response = RefreshResponse {
        access_token: "t".to_string(),
        token_type: "Bearer".to_string(),
        expires_in: 900,
    };
    assert_eq!(response.access_token, "t");
    assert_eq!(response.token_type, "Bearer");
    assert_eq!(response.expires_in, 900);
}

#[test]
fn login_needs_the_stored_password() {
    let user = User {
        user_id: "id-1".to_string(),
        username_or_email: "alice".to_string(),
        password: "hunter2".to_string(),
    };
    let right = LoginUser { username_or_email: "alice".to_string(), password: "hunter2".to_string() };
    let wrong = LoginUser { username_or_email: "alice".to_string(), password: "Hunter2".to_string() };
    let empty = LoginUser { username_or_email: "alice".to_string(), password: String::new() };
    assert!(user.accepts(&right));
    assert!(!user.accepts(&wrong));
    assert!(!user.accepts(&empty));
}

#[test]
fn account_records_hold_their_fields() {
    let register = RegisterUser {
        username: "alice".to_string(),
        email: "a@example.org".to_string(),
        password: "pw".to_string(),
    };
    assert_eq!(register.username, "alice");
    assert_eq!(register.email, "a@example.org");
    assert_eq!(register.password, "pw");
    let nick = ChangeNickName { new_nickname: "al".to_string() };
    assert_eq!(nick.new_nickname, "al");
    let password = ChangePassword { new_password: "pw2".to_string() };
    assert_eq!(password.new_password, "pw2");
    let info = UserInfo {
        username: "alice".to_string(),
        email: "a@example.org".to_string(),
        head_uri: "heads/1".to_string(),
    };
    assert_eq!(info.username, "alice");
    assert_eq!(info.email, "a@example.org");
    assert_eq!(info.head_uri, "heads/1");
}

#[test]
fn base64_look_needs_length_and_alphabet() {
    assert!(is_base64_text(""));
    assert!(is_base64_text("aGk="));
    assert!(is_base64_text("abcd"));
    assert!(is_base64_text("AZaz09+/"));
    assert!(is_base64_text("===="));
    assert!(!is_base64_text("abc"));
    assert!(!is_base64_text("abc-"));
    assert!(!is_base64_text("ab d"));
    assert!(!is_base64_text("héé"));
    assert!(!is_base64_text("äbcd"));
}

#[test]
fn text_that_decodes_is_binary() {
    assert_eq!(text_payload("aGk=".to_string()), TextPayload::Binary(vec![b'h', b'i']));
    assert_eq!(text_payload("AAEC".to_string()), TextPayload::Binary(vec![0, 1, 2]));
    assert_eq!(text_payload(String::new()), TextPayload::Binary(Vec::new()));
}

#[test]
fn text_that_does_not_decode_stays_text() {
    assert_eq!(text_payload("hello".to_string()), TextPayload::Text("hello".to_string()));
    assert_eq!(text_payload("a===".to_string()), TextPayload::Text("a===".to_string()));
    assert_eq!(text_payload("====".to_string()), TextPayload::Text("====".to_string()));
    assert_eq!(text_payload("hi there!".to_string()), TextPayload::Text("hi there!".to_string()));
}

#[test]
fn classify_goes_by_the_decoding_it_is_given() {
    assert_eq!(classify("abcd".to_string(), Ok(vec![1])), TextPayload::Binary(vec![1]));
    assert_eq!(
        classify("abcd".to_string(), Err(base64::DecodeError::InvalidPadding)),
        TextPayload::Text("abcd".to_string())
    );
    assert_eq!(classify("abc".to_string(), Ok(vec![1])), TextPayload::Text("abc".to_string()));
}

fn answer(message: &str, text: Option<&str>) -> Answer {
    Answer { message: message.to_string(), text: text.map(|t| t.to_string()) }
}

#[test]
fn endpoints_have_their_messages() {
    assert_eq!(Endpoint::Register.success(), "注册成功");
    assert_eq!(Endpoint::Register.failure(), "注册失败");
    assert_eq!(Endpoint::Login.success(), "登录成功");
    assert_eq!(Endpoint::Login.failure(), "登录失败");
    assert_eq!(Endpoint::ChangeNickname.success(), "昵称修改成功");
    assert_eq!(Endpoint::ChangeNickname.failure(), "昵称修改失败");
    assert_eq!(Endpoint::ChangeHead.success(), "头像修改成功");
    assert_eq!(Endpoint::ChangeHead.failure(), "头像修改失败");
    assert_eq!(Endpoint::ChangePassword.success(), "密码修改成功");
    assert_eq!(Endpoint::ChangePassword.failure(), "密码修改失败");
    assert_eq!(Endpoint::GetUserInfo.success(), "获取用户信息成功");
    assert_eq!(Endpoint::GetUserInfo.failure(), "获取用户信息失败");
}

#[test]
fn admission_succeeds_only_with_a_token() {
    assert_eq!(
        Endpoint::Register.admission_answer(Some(Ok("tok".to_string()))),
        answer("注册成功", Some("tok"))
    );
    assert_eq!(
        Endpoint::Register.admission_answer(Some(Err("no key".to_string()))),
        answer("注册失败", None)
    );
    assert_eq!(Endpoint::Register.admission_answer(None), answer("注册失败", None));
    assert_eq!(
        Endpoint::Login.admission_answer(Some(Ok("tok".to_string()))),
        answer("登录成功", Some("tok"))
    );
    assert_eq!(Endpoint::Login.admission_answer(None), answer("登录失败", None));
}

#[test]
fn change_reports_success_once_the_store_has_changed() {
    assert_eq!(
        Endpoint::ChangePassword.change_answer(Some(Ok("tok".to_string()))),
        answer("密码修改成功", Some("tok"))
    );
    assert_eq!(
        Endpoint::ChangeNickname.change_answer(Some(Err("Failed to generate token: x".to_string()))),
        answer("昵称修改成功", Some("Failed to generate token: x"))
    );
    assert_eq!(Endpoint::ChangeHead.change_answer(None), answer("头像修改失败", None));
}

#[test]
fn refresh_answers_with_the_token_or_the_reason() {
    assert_eq!(refresh_answer(Ok("tok".to_string())), answer("令牌刷新成功", Some("tok")));
    assert_eq!(
        refresh_answer(Err("Failed to generate token: x".to_string())),
        answer("Failed to generate token: x", None)
    );
}
