//! The closed set of intents and reconciliation events, and the remote
//! requests that handling them schedules.
use vstd::prelude::*;
use crate::board::{CardView, KanbanCard, KanbanList, TodoItem, TodoView, todos_view};
use crate::state::CardActivity;

verus! {

/// An intent of the user or a result delivered back by the remote worker.
#[derive(Debug, Clone)]
pub enum KanbanActions {
    /// Reload every list of the board.
    LoadLists,
    /// A list as the remote side knows it.
    ListLoaded(KanbanList),
    /// A card as the remote side knows it.
    CardLoaded(KanbanCard),
    CreateList { name: String },
    UpdateListName { list_id: String, name: String },
    CreateCard { space_id: String, title: String },
    ShowCardDetail { card_id: String },
    MoveCard { card_id: String, target_space_id: String, position: u64 },
    UpdateCardTitle { card_id: String, title: String },
    UpdateCardDescription { card_id: String, description: Option<String> },
    DeleteCard { card_id: String },
    AddTodo { card_id: String, text: String },
    ToggleTodo { card_id: String, todo_id: String },
    UpdateTodoText { card_id: String, todo_id: String, text: String },
    DeleteTodo { card_id: String, todo_id: String },
    AddTag { card_id: String, tag: String },
    RemoveTag { card_id: String, tag: String },
    SetEndTime { card_id: String, end_time: u64 },
    ClearEndTime { card_id: String },
    AddComment { card_id: String, text: String },
    ActivitiesLoaded { card_id: String, activities: Vec<CardActivity> },
    Loading(bool),
    Error(String),
}

/// Work for the remote worker; its outcome comes back as a `KanbanActions`.
#[derive(Debug, Clone)]
pub enum MatrixRequest {
    LoadKanbanLists,
    CreateKanbanList { name: String },
    UpdateKanbanListName { list_id: String, name: String },
    CreateKanbanCard { space_id: String, title: String },
    LoadCard { card_id: String, space_id: String },
    LoadCardActivities { card_id: String, limit: usize },
    MoveKanbanCard { card_id: String, target_space_id: String, position: u64 },
    SaveCardMetadata { card: KanbanCard },
    SaveCardTodos { card_id: String, todos: Vec<TodoItem> },
    DeleteKanbanCard { card_id: String },
    AddCardComment { card_id: String, text: String },
}

pub enum RequestView {
    LoadKanbanLists,
    CreateKanbanList { name: Seq<char> },
    UpdateKanbanListName { list_id: Seq<char>, name: Seq<char> },
    CreateKanbanCard { space_id: Seq<char>, title: Seq<char> },
    LoadCard { card_id: Seq<char>, space_id: Seq<char> },
    LoadCardActivities { card_id: Seq<char>, limit: usize },
    MoveKanbanCard { card_id: Seq<char>, target_space_id: Seq<char>, position: u64 },
    SaveCardMetadata { card: CardView },
    SaveCardTodos { card_id: Seq<char>, todos: Seq<TodoView> },
    DeleteKanbanCard { card_id: Seq<char> },
    AddCardComment { card_id: Seq<char>, text: Seq<char> },
}

impl View for MatrixRequest {
    type V = RequestView;

    open spec fn view(&self) -> RequestView {
        match self {
            MatrixRequest::LoadKanbanLists => RequestView::LoadKanbanLists,
            MatrixRequest::CreateKanbanList { name } => RequestView::CreateKanbanList { name: name@ },
            MatrixRequest::UpdateKanbanListName { list_id, name } => RequestView::UpdateKanbanListName {
                list_id: list_id@,
                name: name@,
            },
            MatrixRequest::CreateKanbanCard { space_id, title } => RequestView::CreateKanbanCard {
                space_id: space_id@,
                title: title@,
            },
            MatrixRequest::LoadCard { card_id, space_id } => RequestView::LoadCard {
                card_id: card_id@,
                space_id: space_id@,
            },
            MatrixRequest::LoadCardActivities { card_id, limit } => RequestView::LoadCardActivities {
                card_id: card_id@,
                limit: *limit,
            },
            MatrixRequest::MoveKanbanCard { card_id, target_space_id, position } => RequestView::MoveKanbanCard {
                card_id: card_id@,
                target_space_id: target_space_id@,
                position: *position,
            },
            MatrixRequest::SaveCardMetadata { card } => RequestView::SaveCardMetadata { card: card@ },
            MatrixRequest::SaveCardTodos { card_id, todos } => RequestView::SaveCardTodos {
                card_id: card_id@,
                todos: todos_view(todos@),
            },
            MatrixRequest::DeleteKanbanCard { card_id } => RequestView::DeleteKanbanCard { card_id: card_id@ },
            MatrixRequest::AddCardComment { card_id, text } => RequestView::AddCardComment {
                card_id: card_id@,
                text: text@,
            },
        }
    }
}

pub open spec fn requests_view(v: Seq<MatrixRequest>) -> Seq<RequestView> {
    v.map_values(|q: MatrixRequest| q@)
}

} // verus!
