//! The state of the vector store and the checks that every command makes
//! against it before it reaches for the database.

use crate::json::{optional_text_view, text_result_view};
use vstd::prelude::*;

verus! {

/// Which database and collection the vector store works on.
#[derive(Debug)]
pub struct VectorStoreState {
    collection_name: Option<String>,
    is_initialized: bool,
    db_path: Option<String>,
}

pub struct VectorStoreStateView {
    pub collection_name: Option<Seq<char>>,
    pub is_initialized: bool,
    pub db_path: Option<Seq<char>>,
}

impl View for VectorStoreState {
    type V = VectorStoreStateView;

    closed spec fn view(&self) -> VectorStoreStateView {
        VectorStoreStateView {
            collection_name: optional_text_view(self.collection_name),
            is_initialized: self.is_initialized,
            db_path: optional_text_view(self.db_path),
        }
    }
}

/// The database to work on, or why there is none.
pub open spec fn database_of(state: VectorStoreStateView) -> Result<Seq<char>, Seq<char>> {
    if !state.is_initialized {
        Err("Vector store not initialized. Call initialize_vector_store first."@)
    } else {
        match state.db_path {
            Some(path) => Ok(path),
            None => Err("Database path not set"@),
        }
    }
}

/// The database and the current collection, or why there is none.
pub open spec fn target_of(state: VectorStoreStateView) -> Result<
    (Seq<char>, Seq<char>),
    Seq<char>,
> {
    match database_of(state) {
        Err(reason) => Err(reason),
        Ok(path) => match state.collection_name {
            Some(name) => Ok((path, name)),
            None => Err("Collection name not set"@),
        },
    }
}

/// The database and the collection whose statistics are asked for: the
/// current one, or `dant_knowledge` when none is current.
pub open spec fn stats_target_of(state: VectorStoreStateView) -> Result<
    (Seq<char>, Seq<char>),
    Seq<char>,
> {
    match database_of(state) {
        Err(reason) => Err(reason),
        Ok(path) => Ok(
            (
                path,
                match state.collection_name {
                    Some(name) => name,
                    None => "dant_knowledge"@,
                },
            ),
        ),
    }
}

pub open spec fn target_view(t: Result<(String, String), String>) -> Result<
    (Seq<char>, Seq<char>),
    Seq<char>,
> {
    match t {
        Ok((path, name)) => Ok((path@, name@)),
        Err(reason) => Err(reason@),
    }
}

/// The name of the collection that holds the knowledge of one user.
pub open spec fn user_collection(user_id: Seq<char>) -> Seq<char> {
    "dant_knowledge_user_"@ + user_id
}

impl VectorStoreState {
    /// Nothing initialized.
    pub fn new() -> (state: VectorStoreState)
        ensures
            state@ == (VectorStoreStateView {
                collection_name: None,
                is_initialized: false,
                db_path: None,
            }),
    {
        VectorStoreState { collection_name: None, is_initialized: false, db_path: None }
    }

    /// Notes the database that an initialization is about to use. The first
    /// one noted stays.
    pub fn note_database(&mut self, db_path: String)
        ensures
            final(self)@ == (VectorStoreStateView {
                db_path: match old(self)@.db_path {
                    Some(path) => Some(path),
                    None => Some(db_path@),
                },
                ..old(self)@
            }),
    {
        if self.db_path.is_none() {
            self.db_path = Some(db_path);
        }
    }

    /// Records that the vector store has been initialized.
    pub fn set_initialized(&mut self)
        ensures
            final(self)@ == (VectorStoreStateView { is_initialized: true, ..old(self)@ }),
    {
        self.is_initialized = true;
    }

    /// The database to work on.
    pub fn database(&self) -> (path: Result<String, String>)
        ensures
            text_result_view(path) == database_of(self@),
    {
        if !self.is_initialized {
            return Err(
                String::from_str(
                    "Vector store not initialized. Call initialize_vector_store first.",
                ),
            );
        }
        match &self.db_path {
            Some(path) => Ok(path.clone()),
            None => Err(String::from_str("Database path not set")),
        }
    }

    /// The database and the current collection.
    pub fn target(&self) -> (target: Result<(String, String), String>)
        ensures
            target_view(target) == target_of(self@),
    {
        let path = match self.database() {
            Ok(path) => path,
            Err(reason) => {
                return Err(reason);
            },
        };
        match &self.collection_name {
            Some(name) => Ok((path, name.clone())),
            None => Err(String::from_str("Collection name not set")),
        }
    }

    /// The database and the collection whose statistics are asked for.
    pub fn stats_target(&self) -> (target: Result<(String, String), String>)
        ensures
            target_view(target) == stats_target_of(self@),
    {
        let path = match self.database() {
            Ok(path) => path,
            Err(reason) => {
                return Err(reason);
            },
        };
        match &self.collection_name {
            Some(name) => Ok((path, name.clone())),
            None => Ok((path, String::from_str("dant_knowledge"))),
        }
    }
}

/// The name of the collection that holds the knowledge of one user.
pub fn user_collection_name(user_id: &str) -> (name: String)
    ensures
        name@ == user_collection(user_id@),
{
    let mut name = String::from_str("dant_knowledge_user_");
    name.append(user_id);
    name
}

} // verus!
