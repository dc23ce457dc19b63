//! The table of output names: which source document is written under which
//! name.

use crate::path::{
    after_last, file_name_chars, file_name_of, last_position, lemma_file_name,
    lemma_last_position_bounds,
};
use crate::text::text_of;
use vstd::hash_map::StringHashMap;
use vstd::prelude::*;

verus! {

/// A table from the base name of a source document to the base name of its
/// output documents. A document that the table does not list keeps its own
/// base name.
pub struct Config {
    pub file_mappings: StringHashMap<String>,
}

impl View for Config {
    type V = Map<Seq<char>, Seq<char>>;

    open spec fn view(&self) -> Map<Seq<char>, Seq<char>> {
        self.file_mappings@.map_values(|name: String| name@)
    }
}

/// The base name of a file name: the name without its extension, which is
/// what follows its last `.`. A name without a `.`, a name whose only `.`
/// is its first character, and the name `..` have no extension.
pub open spec fn base_name(name: Seq<char>) -> Seq<char> {
    if name == seq!['.', '.'] || last_position(name, '.') <= 0 {
        name
    } else {
        name.take(last_position(name, '.'))
    }
}

/// The base name of the file that a path names: the base name of its file
/// name. Of a path that names no file it is the whole path.
pub open spec fn file_stem(path: Seq<char>) -> Seq<char> {
    match file_name_of(path) {
        Some(name) => base_name(name),
        None => path,
    }
}

/// The name under which the documents of the source file at `path` are
/// written: what the table gives for its base name, or that base name.
pub open spec fn output_name(mappings: Map<Seq<char>, Seq<char>>, path: Seq<char>) -> Seq<char> {
    let stem = file_stem(path);
    if mappings.contains_key(stem) {
        mappings[stem]
    } else {
        stem
    }
}

/// The base name of a path that names a file holds no `/`; it is the file
/// name or what leads it up to a `.`.
pub proof fn lemma_file_stem(path: Seq<char>)
    ensures
        file_name_of(path) matches Some(name) ==> {
            &&& forall|i: int| 0 <= i < file_stem(path).len() ==> file_stem(path)[i] != '/'
            &&& file_stem(path).is_prefix_of(name)
            &&& file_stem(path) != name ==> name[file_stem(path).len() as int] == '.'
        },
{
    if let Some(name) = file_name_of(path) {
        lemma_file_name(path);
        lemma_last_position_bounds(name, '.');
        if name == seq!['.', '.'] || last_position(name, '.') <= 0 {
            assert(name =~= name.subrange(0, name.len() as int));
        } else {
            let k = last_position(name, '.');
            assert(name.take(k) =~= name.subrange(0, k));
            assert forall|i: int| 0 <= i < name.take(k).len() implies name.take(k)[i] != '/' by {
                assert(name.take(k)[i] == name[i]);
            }
        }
    }
}

impl Config {
    /// The empty table.
    pub fn new() -> (config: Config)
        ensures
            config@ == Map::<Seq<char>, Seq<char>>::empty(),
    {
        let config = Config { file_mappings: StringHashMap::new() };
        assert(config@ =~= Map::<Seq<char>, Seq<char>>::empty());
        config
    }

    /// Lists the source base name `source` under the output name `output`,
    /// in place of what the table held for it.
    pub fn add_mapping(&mut self, source: String, output: String)
        ensures
            final(self)@ == old(self)@.insert(source@, output@),
    {
        self.file_mappings.insert(source, output);
        assert(self@ =~= old(self)@.insert(source@, output@));
    }

    /// The name under which the documents of the source document at the
    /// path `excel_file` are written. The table is asked for the base name
    /// of the file, never for a name with a directory or an extension. A
    /// path that names no file stands for itself.
    pub fn get_output_name(&self, excel_file: &str) -> (name: String)
        ensures
            name@ == output_name(self@, excel_file@),
    {
        let stem = match file_name_chars(excel_file) {
            Some(chars) => {
                let n: usize = chars.len();
                let dot: usize = after_last(&chars, '.');
                let parent: bool = n == 2 && chars[0] == '.' && chars[1] == '.';
                assert(parent == (chars@ =~= seq!['.', '.']));
                let end: usize = if parent || dot <= 1 {
                    n
                } else {
                    dot - 1
                };
                let stem = text_of(&chars, 0, end);
                assert(stem@ =~= base_name(chars@));
                stem
            },
            None => String::from_str(excel_file),
        };
        match self.file_mappings.get(stem.as_str()) {
            Some(output) => output.clone(),
            None => stem,
        }
    }
}

impl Default for Config {
    fn default() -> (config: Config)
        ensures
            config@ == Map::<Seq<char>, Seq<char>>::empty(),
    {
        Config::new()
    }
}

} // verus!
