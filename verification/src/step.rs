//! What a request needs next from the world before it can go on.

use vstd::prelude::*;

use crate::db::{DbWrite, DbWriteView};
use crate::message::{Message, MessageView, Role};
use crate::text;

verus! {

/// The view of an [`AfterLookup`].
pub ghost enum AfterLookupView {
    Login { password: Seq<char> },
    Register { password: Seq<char> },
    AdminCreate { password: Seq<char>, role: Role },
}

/// What goes on once a user has been looked up.
#[derive(Debug, Clone, PartialEq, Eq)]
pub enum AfterLookup {
    Login { password: String },
    Register { password: String },
    AdminCreate { password: String, role: Role },
}

impl View for AfterLookup {
    type V = AfterLookupView;

    open spec fn view(&self) -> AfterLookupView {
        match self {
            AfterLookup::Login { password } => AfterLookupView::Login { password: password@ },
            AfterLookup::Register { password } => AfterLookupView::Register {
                password: password@,
            },
            AfterLookup::AdminCreate { password, role } => AfterLookupView::AdminCreate {
                password: password@,
                role: *role,
            },
        }
    }
}

/// The view of an [`AfterHash`].
pub ghost enum AfterHashView {
    Register { username: Seq<char> },
    AdminCreate { username: Seq<char>, role: Role },
    SetPwd { target: Seq<char> },
}

/// What goes on once a password has been hashed.
#[derive(Debug, Clone, PartialEq, Eq)]
pub enum AfterHash {
    Register { username: String },
    AdminCreate { username: String, role: Role },
    SetPwd { target: String },
}

impl View for AfterHash {
    type V = AfterHashView;

    open spec fn view(&self) -> AfterHashView {
        match self {
            AfterHash::Register { username } => AfterHashView::Register { username: username@ },
            AfterHash::AdminCreate { username, role } => AfterHashView::AdminCreate {
                username: username@,
                role: *role,
            },
            AfterHash::SetPwd { target } => AfterHashView::SetPwd { target: target@ },
        }
    }
}

/// The view of an [`AfterWrite`].
pub ghost enum AfterWriteView {
    Register { username: Seq<char> },
    AdminCreate { username: Seq<char>, role: Role },
    SetPwd { target: Seq<char> },
    SetRole { target: Seq<char>, role: Role },
    Delete { target: Seq<char> },
    Ban { target: Seq<char>, reason: Option<Seq<char>> },
    Restore { target: Seq<char> },
}

/// What goes on once the database has been changed.
#[derive(Debug, Clone, PartialEq, Eq)]
pub enum AfterWrite {
    Register { username: String },
    AdminCreate { username: String, role: Role },
    SetPwd { target: String },
    SetRole { target: String, role: Role },
    Delete { target: String },
    Ban { target: String, reason: Option<String> },
    Restore { target: String },
}

impl View for AfterWrite {
    type V = AfterWriteView;

    open spec fn view(&self) -> AfterWriteView {
        match self {
            AfterWrite::Register { username } => AfterWriteView::Register { username: username@ },
            AfterWrite::AdminCreate { username, role } => AfterWriteView::AdminCreate {
                username: username@,
                role: *role,
            },
            AfterWrite::SetPwd { target } => AfterWriteView::SetPwd { target: target@ },
            AfterWrite::SetRole { target, role } => AfterWriteView::SetRole {
                target: target@,
                role: *role,
            },
            AfterWrite::Delete { target } => AfterWriteView::Delete { target: target@ },
            AfterWrite::Ban { target, reason } => AfterWriteView::Ban {
                target: target@,
                reason: text::opt_view(*reason),
            },
            AfterWrite::Restore { target } => AfterWriteView::Restore { target: target@ },
        }
    }
}

/// The view of a [`Step`].
pub ghost enum StepView {
    Done,
    Lookup { username: Seq<char>, then: AfterLookupView },
    Write { write: DbWriteView, then: AfterWriteView },
    Hash { password: Seq<char>, then: AfterHashView },
    Token { username: Seq<char>, role: Role },
    Unexpected { msg: MessageView },
    NoRandom,
}

/// What a request needs next.
#[derive(Debug, Clone, PartialEq, Eq)]
pub enum Step {
    /// Nothing: it has been answered.
    Done,
    /// A user is to be looked up by name.
    Lookup { username: String, then: AfterLookup },
    /// The database is to be changed.
    Write { write: DbWrite, then: AfterWrite },
    /// A password is to be hashed.
    Hash { password: String, then: AfterHash },
    /// A session token is to be made.
    Token { username: String, role: Role },
    /// The message is none that a client may send; the answer describes it.
    Unexpected { msg: Message },
    /// The operating system has no random bytes to give, and the request cannot go on.
    NoRandom,
}

impl View for Step {
    type V = StepView;

    open spec fn view(&self) -> StepView {
        match self {
            Step::Done => StepView::Done,
            Step::Lookup { username, then } => StepView::Lookup {
                username: username@,
                then: then@,
            },
            Step::Write { write, then } => StepView::Write { write: write@, then: then@ },
            Step::Hash { password, then } => StepView::Hash { password: password@, then: then@ },
            Step::Token { username, role } => StepView::Token { username: username@, role: *role },
            Step::Unexpected { msg } => StepView::Unexpected { msg: msg@ },
            Step::NoRandom => StepView::NoRandom,
        }
    }
}

} // verus!
