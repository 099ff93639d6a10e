use looptask::auth::{
    challenge_update, ChallengeUpdate,    check_email,    cloudflare_error_message, cooldown_check, purpose_from_name, reply_error_text, send_outcome,
    send_result, CloudflareReply, EmailSender, CODE_TOO_FREQUENT, MISSING_ACCOUNT,
    MISSING_API_TOKEN, MISSING_SENDER, generate_code, hash_code, hash_session_token, judge_challenge, normalize_display_name,
    normalize_email, purpose_name, registered_display_name, registration_conflict, verdict_error,
    AuthPurpose, AuthState, ChallengeVerdict, CodeRequest, CodeVerification, ALREADY_REGISTERED,
    CODE_EXPIRED, CODE_SENT, CODE_TTL_SECONDS, INVALID_EMAIL, NOT_REGISTERED, NO_PENDING_CODE,
    SESSION_TTL_NANOS, CODE_TTL_NANOS, TEST_SESSION, TOO_MANY_ATTEMPTS, WRONG_CODE,
};
use looptask::Error;

fn config_message(result: Result<impl std::fmt::Debug, Error>) -> String {
    match result {
        Err(Error::Config(m)) => m,
        other => panic!("expected a configuration error, got {other:?}"),
    }
}

fn register_request(email: &str, name: &str) -> CodeRequest {
    CodeRequest {
        email: email.to_string(),
        purpose: AuthPurpose::Register,
        display_name: name.to_string(),
    }
}

fn verification(email: &str, code: &str, purpose: AuthPurpose) -> CodeVerification {
    CodeVerification {
        email: email.to_string(),
        code: code.to_string(),
        purpose,
        display_name: String::new(),
    }
}

#[test]
fn email_is_trimmed_and_lower_cased() {
    assert_eq!(normalize_email("  USER@Example.COM ").unwrap(), "user@example.com");
}

#[test]
fn malformed_emails_are_refused() {
    for bad in ["", "a@b", "no-at-sign.example", "user@localhost", "   "] {
        assert_eq!(config_message(normalize_email(bad)), INVALID_EMAIL);
    }
    let long = format!("{}@example.com", "a".repeat(250));
    assert_eq!(config_message(normalize_email(&long)), INVALID_EMAIL);
}

#[test]
fn display_name_falls_back_to_the_mailbox() {
    assert_eq!(normalize_display_name("  Ada  ", "ada@example.com"), "Ada");
    assert_eq!(normalize_display_name("   ", "ada@example.com"), "ada");
    let long = "x".repeat(50);
    assert_eq!(normalize_display_name(&long, "ada@example.com"), "x".repeat(40));
}

#[test]
fn codes_have_six_digits() {
    assert_eq!(generate_code(123), "000123");
    assert_eq!(generate_code(987_654_321), "654321");
    assert_eq!(generate_code(1_000_000), "000000");
}

#[test]
fn code_and_session_hashes_are_keyed_hmacs() {
    assert_eq!(
        hash_code("looptask-local-session", "user@example.com", "123456"),
        "0f5ebfa39f078747e56c0e83db3991f4c6b9ef1b1d2593514e60e3e60a993449"
    );
    assert_eq!(
        hash_session_token("secret", "abc"),
        "0bcbcc402805c052fe84c2f3fed31e787b1918bf54fa1591b88f0aa815715cfb"
    );
}

#[test]
fn purposes_are_named() {
    assert_eq!(purpose_name(AuthPurpose::Register), "register");
    assert_eq!(purpose_name(AuthPurpose::Login), "login");
}

#[test]
fn challenges_are_judged_in_order() {
    assert_eq!(judge_challenge(100, 0, "h", "h", 101), ChallengeVerdict::Expired);
    assert_eq!(judge_challenge(100, 5, "h", "h", 100), ChallengeVerdict::Exhausted);
    assert_eq!(
        judge_challenge(100, 0, "h", "x", 100),
        ChallengeVerdict::Wrong { attempts: 1, exhausted: false }
    );
    assert_eq!(
        judge_challenge(100, 4, "h", "x", 100),
        ChallengeVerdict::Wrong { attempts: 5, exhausted: true }
    );
    assert_eq!(judge_challenge(100, 4, "h", "h", 100), ChallengeVerdict::Accepted);
}

#[test]
fn verdicts_map_to_messages() {
    let message = |v| match verdict_error(v) {
        Some(Error::Config(m)) => Some(m),
        None => None,
        other => panic!("unexpected {other:?}"),
    };
    assert_eq!(message(ChallengeVerdict::Expired).unwrap(), CODE_EXPIRED);
    assert_eq!(message(ChallengeVerdict::Exhausted).unwrap(), TOO_MANY_ATTEMPTS);
    assert_eq!(
        message(ChallengeVerdict::Wrong { attempts: 2, exhausted: false }).unwrap(),
        WRONG_CODE
    );
    assert_eq!(
        message(ChallengeVerdict::Wrong { attempts: 5, exhausted: true }).unwrap(),
        TOO_MANY_ATTEMPTS
    );
    assert!(message(ChallengeVerdict::Accepted).is_none());
}

#[test]
fn registration_conflicts_follow_the_purpose() {
    assert!(registration_conflict(AuthPurpose::Register, false).is_ok());
    assert!(registration_conflict(AuthPurpose::Login, true).is_ok());
    assert_eq!(
        config_message(registration_conflict(AuthPurpose::Register, true)),
        ALREADY_REGISTERED
    );
    assert!(registration_conflict(AuthPurpose::Login, false).is_ok());
}

#[test]
fn registered_name_prefers_what_was_typed() {
    assert_eq!(registered_display_name(" Grace ", "stored", "g@example.com"), "Grace");
    assert_eq!(registered_display_name("  ", "stored", "g@example.com"), "stored");
    assert_eq!(registered_display_name("", "", "g@example.com"), "");
}

#[test]
fn register_verify_session_and_logout() {
    let mut state = AuthState::default();
    let response = state
        .request_code_at(&register_request(" Ada@Example.com ", "Ada"), 1_000, 42)
        .unwrap();
    assert!(response.accepted);
    assert_eq!(response.message, CODE_SENT);
    assert_eq!(response.expires_in_seconds, CODE_TTL_SECONDS);
    assert_eq!(state.test_last_code().unwrap(), "000042");

    let (user, token) = state
        .verify_code_at(&verification("ada@example.com", "000042", AuthPurpose::Register), 1_010, 7, 9)
        .unwrap();
    assert_eq!(user.id, 7);
    assert_eq!(user.email, "ada@example.com");
    assert_eq!(user.display_name, "Ada");
    assert_eq!(user.created_at, 1_010);
    assert_eq!(token, "00000000-0000-0000-0000-000000000009");

    let seen = state.session_user_at(Some(token.as_str()), 1_020).unwrap();
    assert_eq!(seen.user.id, 7);
    assert_eq!(seen.user.email, "ada@example.com");

    state.remove_session(Some(token.as_str()));
    assert!(state.session_user_at(Some(token.as_str()), 1_030).is_none());
}

#[test]
fn a_code_verifies_once() {
    let mut state = AuthState::default();
    state.request_code_at(&register_request("ada@example.com", ""), 0, 5).unwrap();
    let v = verification("ada@example.com", "000005", AuthPurpose::Register);
    let (user, _) = state.verify_code_at(&v, 1, 1, 2).unwrap();
    assert_eq!(user.display_name, "ada");
    assert_eq!(config_message(state.verify_code_at(&v, 2, 3, 4)), NO_PENDING_CODE);
}

#[test]
fn registered_user_logs_in_and_cannot_register_again() {
    let mut state = AuthState::default();
    state.request_code_at(&register_request("ada@example.com", "Ada"), 0, 11).unwrap();
    state
        .verify_code_at(&verification("ada@example.com", "000011", AuthPurpose::Register), 1, 77, 1)
        .unwrap();

    assert_eq!(
        config_message(state.request_code_at(&register_request("ada@example.com", "Ada"), 2, 12)),
        ALREADY_REGISTERED
    );

    let login = CodeRequest {
        email: "ada@example.com".to_string(),
        purpose: AuthPurpose::Login,
        display_name: String::new(),
    };
    state.request_code_at(&login, 3, 13).unwrap();
    let (user, token) = state
        .verify_code_at(&verification("ada@example.com", "000013", AuthPurpose::Login), 4, 99, 2)
        .unwrap();
    assert_eq!(user.id, 77);
    assert_eq!(user.display_name, "Ada");
    assert_eq!(token, "00000000-0000-0000-0000-000000000002");
}

#[test]
fn unknown_email_cannot_log_in() {
    let mut state = AuthState::default();
    let login = CodeRequest {
        email: "nobody@example.com".to_string(),
        purpose: AuthPurpose::Login,
        display_name: String::new(),
    };
    assert_eq!(config_message(state.request_code_at(&login, 0, 1)), NOT_REGISTERED);
    assert!(state.test_last_code().is_none());
}

#[test]
fn wrong_codes_exhaust_the_challenge() {
    let mut state = AuthState::default();
    state.request_code_at(&register_request("ada@example.com", ""), 0, 1).unwrap();
    let wrong = verification("ada@example.com", "999999", AuthPurpose::Register);
    for _ in 0..4 {
        assert_eq!(config_message(state.verify_code_at(&wrong, 1, 1, 1)), WRONG_CODE);
    }
    assert_eq!(config_message(state.verify_code_at(&wrong, 1, 1, 1)), TOO_MANY_ATTEMPTS);
    let right = verification("ada@example.com", "000001", AuthPurpose::Register);
    assert_eq!(config_message(state.verify_code_at(&right, 1, 1, 1)), NO_PENDING_CODE);
}

#[test]
fn expired_codes_are_refused() {
    let mut state = AuthState::default();
    state.request_code_at(&register_request("ada@example.com", ""), 0, 3).unwrap();
    let right = verification("ada@example.com", "000003", AuthPurpose::Register);
    assert_eq!(
        config_message(state.verify_code_at(&right, CODE_TTL_NANOS + 1, 1, 1)),
        CODE_EXPIRED
    );
    assert_eq!(config_message(state.verify_code_at(&right, 0, 1, 1)), NO_PENDING_CODE);
}

#[test]
fn sessions_expire() {
    let mut state = AuthState::default();
    let token = state.create_test_session_at(5, 100);
    assert_eq!(token, TEST_SESSION);
    let user = state.session_user_at(Some(TEST_SESSION), 100 + SESSION_TTL_NANOS).unwrap();
    assert_eq!(user.user.email, "test@example.com");
    assert_eq!(user.user.display_name, "Test Operator");
    assert!(state.session_user_at(Some(TEST_SESSION), 101 + SESSION_TTL_NANOS).is_none());
    assert!(state.session_user_at(Some(TEST_SESSION), 100).is_none());
    assert!(state.session_user_at(None, 100).is_none());
}

#[test]
fn live_clock_paths_work() {
    let mut state = AuthState::default();
    state.request_code(&register_request("live@example.com", "Live")).unwrap();
    let code = state.test_last_code().unwrap();
    let (user, token) = state
        .verify_code(&verification("live@example.com", &code, AuthPurpose::Register))
        .unwrap();
    assert_eq!(user.display_name, "Live");
    assert_eq!(state.session_user(Some(token.as_str())).unwrap().user.id, user.id);
}

#[test]
fn stored_purposes_read_back() {
    for purpose in [AuthPurpose::Register, AuthPurpose::Login] {
        assert_eq!(purpose_from_name(purpose_name(purpose)), Some(purpose));
    }
    assert_eq!(purpose_from_name("admin"), None);
}

#[test]
fn codes_cannot_be_requested_too_often() {
    assert!(cooldown_check(false).is_ok());
    assert_eq!(config_message(cooldown_check(true)), CODE_TOO_FREQUENT);
}

#[test]
fn mail_settings_must_all_be_present() {
    let some = |v: &str| Some(v.to_string());
    assert_eq!(config_message(EmailSender::from_values(None, None, None)), MISSING_ACCOUNT);
    assert_eq!(
        config_message(EmailSender::from_values(some("acct"), None, some("a@b.c"))),
        MISSING_API_TOKEN
    );
    assert_eq!(
        config_message(EmailSender::from_values(some("acct"), some("tok"), None)),
        MISSING_SENDER
    );
    let sender = EmailSender::from_values(some("acct"), some("tok"), some("noreply@example.com")).unwrap();
    assert_eq!(sender.api_token(), "tok");
    assert_eq!(
        sender.endpoint(),
        "https://api.cloudflare.com/client/v4/accounts/acct/email/sending/send"
    );
    let mail = sender.code_email("ada@example.com", "012345");
    assert_eq!(mail.to, "ada@example.com");
    assert_eq!(mail.from, "noreply@example.com");
    assert_eq!(mail.subject, "looptask 验证码");
    assert_eq!(mail.text, "你的 looptask 验证码是 012345，10 分钟内有效。");
    assert_eq!(
        mail.html,
        "<p>你的 looptask 验证码是：</p><h1>012345</h1><p>验证码 10 分钟内有效。</p>"
    );
}

#[test]
fn cloudflare_errors_are_described() {
    assert_eq!(
        cloudflare_error_message(r#"{"errors":[{"message":"bad sender"},{"code":1},{"message":"quota"}]}"#),
        "bad sender; quota"
    );
    assert_eq!(cloudflare_error_message(r#"{"errors":[]}"#), "未知错误");
    assert_eq!(cloudflare_error_message(r#"{"errors":"nope"}"#), "未知错误");
    assert_eq!(cloudflare_error_message("not json"), "未知错误");
    let reply: Result<CloudflareReply, String> = Ok(CloudflareReply {
        success: None,
        errors: Some(vec![None, Some("one".to_string()), Some("two".to_string())]),
    });
    assert_eq!(reply_error_text(&reply), "one; two");
}

#[test]
fn cloudflare_answers_decide_the_send() {
    assert!(send_result(true, "200 OK", r#"{"success":true}"#).is_ok());
    assert_eq!(
        config_message(send_result(true, "200 OK", r#"{"success":false,"errors":[{"message":"x"}]}"#)),
        "Cloudflare 邮件发送未确认成功：x"
    );
    assert_eq!(
        config_message(send_result(false, "403 Forbidden", r#"{"errors":[{"message":"denied"}]}"#)),
        "Cloudflare 邮件发送失败（403 Forbidden）：denied"
    );
    match send_result(true, "200 OK", "<html>") {
        Err(Error::Internal(m)) => assert!(m.starts_with("Cloudflare 返回无效 JSON: ")),
        other => panic!("unexpected {other:?}"),
    }
    let reply: Result<CloudflareReply, String> = Err("eof".to_string());
    match send_outcome(true, "200 OK", &reply) {
        Err(Error::Internal(m)) => assert_eq!(m, "Cloudflare 返回无效 JSON: eof"),
        other => panic!("unexpected {other:?}"),
    }
}

#[test]
fn lower_cased_addresses_are_checked() {
    assert_eq!(check_email("ada@example.com".to_string()).unwrap(), "ada@example.com");
    assert_eq!(config_message(check_email("ada@example".to_string())), INVALID_EMAIL);
    assert_eq!(config_message(check_email("a@b.".to_string())), INVALID_EMAIL);
    assert_eq!(check_email("a@b.c".to_string()).unwrap(), "a@b.c");
}

#[test]
fn test_session_opens_now() {
    let mut state = AuthState::default();
    assert_eq!(state.create_test_session(), TEST_SESSION);
    let user = state.session_user(Some(TEST_SESSION)).unwrap();
    assert_eq!(user.user.email, "test@example.com");
}

#[test]
fn expiry_is_judged_to_the_nanosecond() {
    let mut state = AuthState::default();
    state.request_code_at(&register_request("ada@example.com", ""), 0, 7).unwrap();
    let right = verification("ada@example.com", "000007", AuthPurpose::Register);
    assert!(state.verify_code_at(&right, CODE_TTL_NANOS, 1, 2).is_ok());

    let mut late = AuthState::default();
    late.request_code_at(&register_request("ada@example.com", ""), 0, 7).unwrap();
    assert_eq!(config_message(late.verify_code_at(&right, CODE_TTL_NANOS + 1, 1, 2)), CODE_EXPIRED);
    assert_eq!(CODE_TTL_NANOS, 600_000_000_000);
    assert_eq!(SESSION_TTL_NANOS, 2_592_000_000_000_000);
}

#[test]
fn verdicts_update_the_stored_challenge() {
    assert_eq!(challenge_update(ChallengeVerdict::Expired), ChallengeUpdate::Consume);
    assert_eq!(challenge_update(ChallengeVerdict::Exhausted), ChallengeUpdate::Consume);
    assert_eq!(challenge_update(ChallengeVerdict::Accepted), ChallengeUpdate::Consume);
    assert_eq!(
        challenge_update(ChallengeVerdict::Wrong { attempts: 3, exhausted: false }),
        ChallengeUpdate::Count { attempts: 3, consume: false }
    );
    assert_eq!(
        challenge_update(ChallengeVerdict::Wrong { attempts: 5, exhausted: true }),
        ChallengeUpdate::Count { attempts: 5, consume: true }
    );
}
