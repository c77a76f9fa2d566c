//! The replaceable parser boundary: the game model that a parser hands to the API.
//!
//! Maps of the model are kept as lists whose entries carry their own key (a type's
//! qualified name, a field's name); `type_named` and friends look entries up.
use vstd::prelude::*;
use crate::paths::{join, join_spec};
use crate::text::{str_equal, concat3};

verus! {

/// The executable and the KFC container of one game installation.
#[derive(Debug)]
pub struct GameFiles {
    pub executable: String,
    pub kfc: String,
}

impl GameFiles {
    /// The files of the game client under `game`.
    pub fn client(game: &str) -> (r: GameFiles)
        ensures
            r.executable@ == join_spec(game@, "enshrouded.exe"@),
            r.kfc@ == join_spec(game@, "enshrouded.kfc"@),
    {
        GameFiles { executable: join(game, "enshrouded.exe"), kfc: join(game, "enshrouded.kfc") }
    }

    /// The files of the dedicated server under `game`.
    pub fn server(game: &str) -> (r: GameFiles)
        ensures
            r.executable@ == join_spec(game@, "enshrouded_server.exe"@),
            r.kfc@ == join_spec(game@, "enshrouded_server.kfc"@),
    {
        GameFiles {
            executable: join(game, "enshrouded_server.exe"),
            kfc: join(game, "enshrouded_server.kfc"),
        }
    }
}

/// A field of a struct type, at its byte offset.
#[derive(Debug)]
pub struct FieldDefinition {
    pub name: String,
    /// The qualified name of the field's type.
    pub field_type: String,
    pub data_offset: u64,
}

/// A named value of an enum type.
#[derive(Debug)]
pub struct EnumValueDefinition {
    pub name: String,
    pub value: u64,
}

/// A reflected game type.
#[derive(Debug)]
pub struct TypeDefinition {
    pub name: String,
    pub impact_name: String,
    pub qualified_name: String,
    pub namespace: Vec<String>,
    pub inner_type: Option<String>,
    /// The primitive kind, spelled as the reflection names it (`Struct`, `Typedef`, ...).
    pub primitive: String,
    pub size: u32,
    pub alignment: u16,
    pub element_alignment: u16,
    pub field_count: u32,
    /// The fields, each under its own name.
    pub fields: Vec<FieldDefinition>,
    /// The enum values, each under its own name.
    pub enum_values: Vec<EnumValueDefinition>,
}

/// A resource of the KFC container.
#[derive(Debug)]
pub struct ResourceReference {
    pub guid: String,
    pub part: u32,
}

/// The parsed game model.
#[derive(Debug)]
pub struct GameSchema {
    pub parser: String,
    pub game_version: String,
    /// The types, each under its qualified name.
    pub types: Vec<TypeDefinition>,
    /// The resources of each resource type, under the type's qualified name.
    pub resources: Vec<(String, Vec<ResourceReference>)>,
}

/// `types[i]` is the last type named `name`, or there is none (`-1`).
pub open spec fn last_type_named(types: Seq<TypeDefinition>, name: Seq<char>) -> int
    decreases types.len(),
{
    if types.len() == 0 {
        -1
    } else if types.last().qualified_name@ == name {
        types.len() - 1
    } else {
        last_type_named(types.drop_last(), name)
    }
}

proof fn lemma_last_type_named_bounds(types: Seq<TypeDefinition>, name: Seq<char>)
    ensures
        -1 <= last_type_named(types, name) < types.len(),
        last_type_named(types, name) >= 0 ==> types[last_type_named(types, name)].qualified_name@ == name,
        last_type_named(types, name) == -1 ==> forall|i: int| 0 <= i < types.len() ==> #[trigger] types[i].qualified_name@ != name,
    decreases types.len(),
{
    if types.len() > 0 {
        lemma_last_type_named_bounds(types.drop_last(), name);
        if types.last().qualified_name@ != name {
            assert forall|i: int| 0 <= i < types.len() - 1 implies types[i] == types.drop_last()[i] by {}
        }
    }
}

impl GameSchema {
    /// The position of the type with qualified name `name`; as in a map, a later
    /// entry under the same name replaces an earlier one.
    pub fn type_position(&self, name: &str) -> (r: Option<usize>)
        ensures
            match r {
                Some(i) => i as int == last_type_named(self.types@, name@),
                None => last_type_named(self.types@, name@) == -1,
            },
            r matches Some(i) ==> i < self.types@.len() && self.types@[i as int].qualified_name@ == name@,
    {
        proof { lemma_last_type_named_bounds(self.types@, name@); }
        let mut i = self.types.len();
        assert(self.types@.take(i as int) =~= self.types@);
        while i > 0
            invariant
                i <= self.types@.len(),
                last_type_named(self.types@, name@) == last_type_named(self.types@.take(i as int), name@),
            decreases i,
        {
            assert(self.types@.take(i as int).drop_last() =~= self.types@.take(i - 1));
            if str_equal(self.types[i - 1].qualified_name.as_str(), name) {
                proof { lemma_last_type_named_bounds(self.types@, name@); }
                return Some(i - 1);
            }
            i = i - 1;
        }
        None
    }
}

/// Why a parser could not produce a schema.
#[derive(Debug)]
pub enum ParserError {
    MissingExecutable(String),
    MissingData(String),
    Backend(String),
}

impl ParserError {
    pub open spec fn message_spec(&self) -> Seq<char> {
        match self {
            ParserError::MissingExecutable(path) => "game executable does not exist: "@ + path@,
            ParserError::MissingData(path) => "game data does not exist: "@ + path@,
            ParserError::Backend(detail) => "parser backend failed: "@ + detail@,
        }
    }

    /// The error as the loader reports it.
    pub fn message(&self) -> (r: String)
        ensures
            r@ == self.message_spec(),
    {
        let r = match self {
            ParserError::MissingExecutable(path) => concat3("game executable does not exist: ", path.as_str(), ""),
            ParserError::MissingData(path) => concat3("game data does not exist: ", path.as_str(), ""),
            ParserError::Backend(detail) => concat3("parser backend failed: ", detail.as_str(), ""),
        };
        proof {
            reveal_strlit("");
        }
        assert(r@ =~= self.message_spec());
        r
    }
}

/// A parser backend that turns game files into a schema.
pub trait GameParser {
    fn id(&self) -> &'static str;
    fn parse(&self, files: &GameFiles) -> Result<GameSchema, ParserError>;
}

/// The backend that reads the KFC container and the executable's reflection data.
#[derive(Debug)]
pub struct KfcParser;

impl KfcParser {
    /// The backend's identifier.
    pub fn id(&self) -> (r: &'static str)
        ensures
            r@ == "kfc"@,
    {
        "kfc"
    }

    /// The checks that precede parsing: the executable is checked first, then the
    /// container; a missing one is reported with its path.
    pub fn require_files(&self, files: &GameFiles, executable_is_file: bool, data_is_file: bool) -> (r: Result<(), ParserError>)
        ensures
            r is Ok <==> executable_is_file && data_is_file,
            r matches Err(ParserError::MissingExecutable(p)) ==> !executable_is_file && p@ == files.executable@,
            r matches Err(ParserError::MissingData(p)) ==> executable_is_file && !data_is_file && p@ == files.kfc@,
            !(r matches Err(ParserError::Backend(_))),
    {
        if !executable_is_file {
            return Err(ParserError::MissingExecutable(files.executable.clone()));
        }
        if !data_is_file {
            return Err(ParserError::MissingData(files.kfc.clone()));
        }
        Ok(())
    }
}

} // verus!
