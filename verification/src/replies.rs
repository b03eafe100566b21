//! What the account endpoints answer: which message, and whether a token
//! goes with it. The endpoints ask the account store and the token service
//! and hand their verdicts in.

use vstd::prelude::*;
use vstd::string::*;

verus! {

/// An endpoint of the account service that answers with one of two fixed
/// messages.
#[derive(Debug, Clone, Copy, PartialEq, Eq, Structural)]
pub enum Endpoint {
    Register,
    Login,
    ChangeNickname,
    ChangeHead,
    ChangePassword,
    GetUserInfo,
}

/// What an endpoint answers: a message, and the text that goes with it, if
/// any.
#[derive(Debug, Clone, PartialEq, Eq)]
pub struct Answer {
    pub message: String,
    pub text: Option<String>,
}

/// The view of an answer.
pub struct AnswerView {
    pub message: Seq<char>,
    pub text: Option<Seq<char>>,
}

impl View for Answer {
    type V = AnswerView;

    open spec fn view(&self) -> AnswerView {
        AnswerView {
            message: self.message@,
            text: match self.text {
                Some(text) => Some(text@),
                None => None,
            },
        }
    }
}

/// The message with which `endpoint` reports success.
pub open spec fn success_text(endpoint: Endpoint) -> Seq<char> {
    match endpoint {
        Endpoint::Register => "注册成功"@,
        Endpoint::Login => "登录成功"@,
        Endpoint::ChangeNickname => "昵称修改成功"@,
        Endpoint::ChangeHead => "头像修改成功"@,
        Endpoint::ChangePassword => "密码修改成功"@,
        Endpoint::GetUserInfo => "获取用户信息成功"@,
    }
}

/// The message with which `endpoint` reports failure.
pub open spec fn failure_text(endpoint: Endpoint) -> Seq<char> {
    match endpoint {
        Endpoint::Register => "注册失败"@,
        Endpoint::Login => "登录失败"@,
        Endpoint::ChangeNickname => "昵称修改失败"@,
        Endpoint::ChangeHead => "头像修改失败"@,
        Endpoint::ChangePassword => "密码修改失败"@,
        Endpoint::GetUserInfo => "获取用户信息失败"@,
    }
}

/// The message with which a token is reported refreshed.
pub open spec fn refreshed_text() -> Seq<char> {
    "令牌刷新成功"@
}

/// The answer of failure of `endpoint`: its failure message and no text.
pub open spec fn failure_of(endpoint: Endpoint) -> AnswerView {
    AnswerView { message: failure_text(endpoint), text: None }
}

/// What the token service said: a token, or why there is none.
pub open spec fn token_view(token: Result<String, String>) -> Result<Seq<char>, Seq<char>> {
    match token {
        Ok(token) => Ok(token@),
        Err(reason) => Err(reason@),
    }
}

/// What an endpoint that admits a user (registration, login) answers.
/// `token` is `None` where the account store did not admit the user, else
/// what the token service said. Only an admitted user with a token is a
/// success; the token goes with the answer.
pub open spec fn admission(
    endpoint: Endpoint,
    token: Option<Result<Seq<char>, Seq<char>>>,
) -> AnswerView {
    match token {
        Some(Ok(token)) => AnswerView { message: success_text(endpoint), text: Some(token) },
        _ => failure_of(endpoint),
    }
}

/// What an endpoint that changes an account answers. `token` is `None`
/// where the account store did not make the change, else what the token
/// service said. A change that was made is a success; the new token goes
/// with the answer, or, where there is none, the reason.
pub open spec fn change(
    endpoint: Endpoint,
    token: Option<Result<Seq<char>, Seq<char>>>,
) -> AnswerView {
    match token {
        Some(Ok(token)) => AnswerView { message: success_text(endpoint), text: Some(token) },
        Some(Err(reason)) => AnswerView { message: success_text(endpoint), text: Some(reason) },
        None => failure_of(endpoint),
    }
}

/// What the refresh endpoint answers: the new token with the message of
/// success, or the reason for which there is none as the message.
pub open spec fn refresh(token: Result<Seq<char>, Seq<char>>) -> AnswerView {
    match token {
        Ok(token) => AnswerView { message: refreshed_text(), text: Some(token) },
        Err(reason) => AnswerView { message: reason, text: None },
    }
}

/// The view of what the token service said, if it was asked.
pub open spec fn asked_view(token: Option<Result<String, String>>) -> Option<
    Result<Seq<char>, Seq<char>>,
> {
    match token {
        Some(token) => Some(token_view(token)),
        None => None,
    }
}

impl Endpoint {
    /// The message with which the endpoint reports success.
    pub fn success(&self) -> (message: &'static str)
        ensures
            message@ == success_text(*self),
    {
        match self {
            Endpoint::Register => "注册成功",
            Endpoint::Login => "登录成功",
            Endpoint::ChangeNickname => "昵称修改成功",
            Endpoint::ChangeHead => "头像修改成功",
            Endpoint::ChangePassword => "密码修改成功",
            Endpoint::GetUserInfo => "获取用户信息成功",
        }
    }

    /// The message with which the endpoint reports failure.
    pub fn failure(&self) -> (message: &'static str)
        ensures
            message@ == failure_text(*self),
    {
        match self {
            Endpoint::Register => "注册失败",
            Endpoint::Login => "登录失败",
            Endpoint::ChangeNickname => "昵称修改失败",
            Endpoint::ChangeHead => "头像修改失败",
            Endpoint::ChangePassword => "密码修改失败",
            Endpoint::GetUserInfo => "获取用户信息失败",
        }
    }

    /// The answer of an endpoint that admits a user.
    pub fn admission_answer(&self, token: Option<Result<String, String>>) -> (answer: Answer)
        ensures
            answer@ == admission(*self, asked_view(token)),
    {
        match token {
            Some(Ok(token)) => Answer { message: self.success().to_owned(), text: Some(token) },
            _ => Answer { message: self.failure().to_owned(), text: None },
        }
    }

    /// The answer of an endpoint that changes an account.
    pub fn change_answer(&self, token: Option<Result<String, String>>) -> (answer: Answer)
        ensures
            answer@ == change(*self, asked_view(token)),
    {
        match token {
            Some(Ok(token)) => Answer { message: self.success().to_owned(), text: Some(token) },
            Some(Err(reason)) => Answer { message: self.success().to_owned(), text: Some(reason) },
            None => Answer { message: self.failure().to_owned(), text: None },
        }
    }
}

/// The answer of the refresh endpoint.
pub fn refresh_answer(token: Result<String, String>) -> (answer: Answer)
    ensures
        answer@ == refresh(token_view(token)),
{
    match token {
        Ok(token) => Answer { message: "令牌刷新成功".to_owned(), text: Some(token) },
        Err(reason) => Answer { message: reason, text: None },
    }
}

} // verus!
