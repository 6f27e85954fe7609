//! A per-user list of short notes: a profile owns a counted list of to-do
//! items, each of which can be ticked off and deleted.

use vstd::prelude::*;
use vstd::utf8::encode_utf8;

verus! {

/// The longest name a profile may carry, in bytes.
pub const MAX_NAME_LEN: usize = 100;

/// The longest text a to-do item may carry, in bytes.
pub const MAX_CONTENT_LEN: usize = 200;

/// Why a request was refused.
#[derive(Clone, Copy, Debug, PartialEq, Eq, Structural)]
pub enum AppError {
    /// The profile's name is longer than `MAX_NAME_LEN` bytes.
    NameTooLong,
    /// The item's text is longer than `MAX_CONTENT_LEN` bytes.
    ContentTooLong,
}

/// A user's profile.
#[derive(Clone, Debug, PartialEq, Eq)]
pub struct Profile {
    /// The address the profile is stored at.
    pub key: [u8; 32],
    pub name: String,
    /// The address of the user who may change the profile and its items.
    pub authority: [u8; 32],
    /// The number of items created and not deleted.
    pub todo_count: u8,
}

/// A to-do item.
#[derive(Clone, Debug, PartialEq, Eq)]
pub struct Todo {
    /// The address of the profile that owns the item.
    pub profile: [u8; 32],
    pub content: String,
    pub completed: bool,
}

/// A profile as plain values.
pub struct ProfileView {
    pub key: Seq<u8>,
    pub name: Seq<char>,
    pub authority: Seq<u8>,
    pub todo_count: nat,
}

/// A to-do item as plain values.
pub struct TodoView {
    pub profile: Seq<u8>,
    pub content: Seq<char>,
    pub completed: bool,
}

impl View for Profile {
    type V = ProfileView;

    open spec fn view(&self) -> ProfileView {
        ProfileView {
            key: self.key@,
            name: self.name@,
            authority: self.authority@,
            todo_count: self.todo_count as nat,
        }
    }
}

impl View for Todo {
    type V = TodoView;

    open spec fn view(&self) -> TodoView {
        TodoView { profile: self.profile@, content: self.content@, completed: self.completed }
    }
}

/// The length of `text` in bytes, as UTF-8.
pub open spec fn byte_len(text: Seq<char>) -> nat {
    encode_utf8(text).len()
}

/// A new profile at address `key` for the user `creator`, with no items.
/// Refused where `name` is longer than `MAX_NAME_LEN` bytes.
pub fn create_profile(key: [u8; 32], creator: [u8; 32], name: String) -> (result: Result<
    Profile,
    AppError,
>)
    ensures
        result is Ok <==> byte_len(name@) <= MAX_NAME_LEN,
        result is Err ==> result == Err::<Profile, AppError>(AppError::NameTooLong),
        result matches Ok(profile) ==> profile@ == (ProfileView {
            key: key@,
            name: name@,
            authority: creator@,
            todo_count: 0,
        }),
{
    if name.as_str().as_bytes().len() > MAX_NAME_LEN {
        return Err(AppError::NameTooLong);
    }
    Ok(Profile { key, name, authority: creator, todo_count: 0 })
}

/// A new, open item with the text `content`, owned by `profile`, whose item
/// count goes up by one. Refused where `content` is longer than
/// `MAX_CONTENT_LEN` bytes; the profile is then unchanged.
///
/// A profile that takes the item has room for it in its count.
pub fn create_todo(profile: &mut Profile, content: String) -> (result: Result<Todo, AppError>)
    requires
        byte_len(content@) <= MAX_CONTENT_LEN ==> old(profile).todo_count < u8::MAX,
    ensures
        result is Ok <==> byte_len(content@) <= MAX_CONTENT_LEN,
        result is Err ==> result == Err::<Todo, AppError>(AppError::ContentTooLong),
        result is Err ==> *final(profile) == *old(profile),
        result matches Ok(todo) ==> {
            &&& todo@ == (TodoView {
                profile: old(profile)@.key,
                content: content@,
                completed: false,
            })
            &&& final(profile)@ == (ProfileView {
                todo_count: old(profile)@.todo_count + 1,
                ..old(profile)@
            })
        },
{
    if content.as_str().as_bytes().len() > MAX_CONTENT_LEN {
        return Err(AppError::ContentTooLong);
    }
    let todo = Todo { profile: profile.key, content, completed: false };
    profile.todo_count = profile.todo_count + 1;
    Ok(todo)
}

/// Ticks an open item off, or opens a ticked one again.
pub fn toggle_todo(todo: &mut Todo)
    ensures
        final(todo)@ == (TodoView { completed: !old(todo)@.completed, ..old(todo)@ }),
{
    todo.completed = !todo.completed;
}

/// Takes one item off the profile's count, which stays at zero where it was
/// zero.
pub fn delete_todo(profile: &mut Profile)
    ensures
        final(profile)@ == (ProfileView {
            todo_count: if old(profile)@.todo_count == 0 {
                0
            } else {
                (old(profile)@.todo_count - 1) as nat
            },
            ..old(profile)@
        }),
{
    profile.todo_count = profile.todo_count.saturating_sub(1);
}

} // verus!
