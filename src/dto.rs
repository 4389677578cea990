//! Records of the board REST service: what it returns and what it is sent.
use vstd::prelude::*;

verus! {

#[derive(Debug, Clone)]
pub struct TagDto {
    pub id: i64,
    pub title: String,
    pub color: Option<String>,
}

#[derive(Debug, Clone)]
pub struct TodoDto {
    pub id: i64,
    pub title: String,
    pub completed: Option<bool>,
}

#[derive(Debug, Clone)]
pub struct ActiveDto {
    pub id: i64,
    pub title: String,
    pub start_time: Option<String>,
}

/// A card with its todos and activities.
#[derive(Debug, Clone)]
pub struct CardDetailDto {
    pub id: i64,
    pub title: String,
    pub description: Option<String>,
    pub status: Option<bool>,
    pub end_time: Option<String>,
    pub tags: Vec<TagDto>,
    pub todos: Vec<TodoDto>,
    pub active: Vec<ActiveDto>,
}

#[derive(Debug, Clone)]
pub struct CardDto {
    pub id: i64,
    pub title: String,
    pub description: Option<String>,
    pub status: Option<bool>,
    pub end_time: Option<String>,
    pub tags: Vec<TagDto>,
}

#[derive(Debug, Clone)]
pub struct SpaceDto {
    pub id: i64,
    pub title: String,
    pub user_id: String,
    pub canceled: Option<bool>,
    pub sort: Option<i32>,
    pub color: Option<String>,
    pub sort_by: Option<String>,
    pub cards: Vec<CardDto>,
}

#[derive(Debug, Clone)]
pub struct CreateSpaceRequest {
    pub title: String,
    pub user_id: String,
    pub canceled: Option<bool>,
    pub sort: Option<i32>,
    pub color: Option<String>,
    pub sort_by: Option<String>,
}

#[derive(Debug, Clone)]
pub struct SpaceReference {
    pub id: i64,
}

#[derive(Debug, Clone)]
pub struct CreateCardRequest {
    pub title: String,
    pub description: Option<String>,
    pub status: Option<bool>,
    pub space: SpaceReference,
}

#[derive(Debug, Clone)]
pub struct UpdateCardRequest {
    pub title: String,
    pub description: Option<String>,
    pub status: Option<bool>,
}

#[derive(Debug, Clone)]
pub struct UpdateSpaceRequest {
    pub title: String,
    pub user_id: String,
}

#[derive(Debug, Clone)]
pub struct UpdateCardTagsRequest {
    pub title: String,
    pub description: Option<String>,
    pub status: Option<bool>,
    pub tags: Vec<TagDto>,
}

#[derive(Debug, Clone)]
pub struct CreateTagRequest {
    pub title: String,
    pub color: String,
}

#[derive(Debug, Clone)]
pub struct CardReference {
    pub id: i64,
}

#[derive(Debug, Clone)]
pub struct CreateTodoRequest {
    pub title: String,
    pub user_id: String,
    pub parent_id: Option<i64>,
    pub end_time: Option<String>,
    pub card: CardReference,
}

#[derive(Debug, Clone)]
pub struct UpdateTodoRequest {
    pub title: String,
    pub user_id: String,
    pub parent_id: Option<i64>,
    pub end_time: Option<String>,
}

#[derive(Debug, Clone)]
pub struct CreateActiveRequest {
    pub title: String,
    pub user_id: String,
    pub start_time: Option<String>,
    pub card: CardReference,
}

} // verus!
