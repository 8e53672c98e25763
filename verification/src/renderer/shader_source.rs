//! Shader sources and the registry that keeps them by name.

use vstd::prelude::*;
use vstd::string::StringExecFns;

verus! {

/// The source text of a shader program: its vertex and its fragment shader.
#[derive(Debug, Clone, Default, PartialEq, Eq, Hash)]
pub struct ShaderSource {
    vertex_shader: String,
    fragment_shader: String,
}

/// The two texts of a shader source.
pub ghost struct ShaderSourceView {
    pub vertex: Seq<char>,
    pub fragment: Seq<char>,
}

impl View for ShaderSource {
    type V = ShaderSourceView;

    closed spec fn view(&self) -> ShaderSourceView {
        ShaderSourceView { vertex: self.vertex_shader@, fragment: self.fragment_shader@ }
    }
}

impl ShaderSource {
    /// The shader source with the texts `vertex` and `fragment`.
    pub fn new(vertex: &str, fragment: &str) -> (source: Self)
        ensures
            source@ == (ShaderSourceView { vertex: vertex@, fragment: fragment@ }),
    {
        ShaderSource {
            vertex_shader: String::from_str(vertex),
            fragment_shader: String::from_str(fragment),
        }
    }

    /// The text of the vertex shader.
    pub fn get_vertex_shader(&self) -> (text: &str)
        ensures
            text@ == self@.vertex,
    {
        self.vertex_shader.as_str()
    }

    /// The text of the fragment shader.
    pub fn get_fragment_shader(&self) -> (text: &str)
        ensures
            text@ == self@.fragment,
    {
        self.fragment_shader.as_str()
    }
}

/// The shader sources of an engine, each registered under a name.
///
/// `names` and `sources` are parallel: `sources[i]` is registered under
/// `names[i]`, and no name occurs twice.
pub struct ShaderManager {
    names: Vec<String>,
    sources: Vec<ShaderSource>,
}

impl View for ShaderManager {
    type V = Map<Seq<char>, ShaderSourceView>;

    /// The shader source registered under each name.
    closed spec fn view(&self) -> Map<Seq<char>, ShaderSourceView> {
        Map::new(
            |name: Seq<char>| self.registered().contains(name),
            |name: Seq<char>| self.sources@[self.registered().index_of(name)]@,
        )
    }
}

impl Default for ShaderManager {
    /// A registry without shader sources.
    fn default() -> (manager: Self)
        ensures
            manager.wf(),
            manager@ == Map::<Seq<char>, ShaderSourceView>::empty(),
    {
        let manager = ShaderManager { names: Vec::new(), sources: Vec::new() };
        assert(manager@ =~= Map::<Seq<char>, ShaderSourceView>::empty());
        manager
    }
}

impl ShaderManager {
    /// The registered names, in the order of their first registration.
    pub closed spec fn registered(&self) -> Seq<Seq<char>> {
        Seq::new(self.names@.len(), |i: int| self.names@[i]@)
    }

    /// Every name has its source, and no name is registered twice.
    pub closed spec fn wf(&self) -> bool {
        &&& self.names@.len() == self.sources@.len()
        &&& self.registered().no_duplicates()
    }

    /// Registers the shader source with the texts `vertex_shader` and
    /// `fragment_shader` under `name`, in place of the one that may have been
    /// registered under it.
    pub fn register_from_str(&mut self, name: &str, vertex_shader: &str, fragment_shader: &str)
        requires
            old(self).wf(),
        ensures
            final(self).wf(),
            final(self)@ == old(self)@.insert(
                name@,
                ShaderSourceView { vertex: vertex_shader@, fragment: fragment_shader@ },
            ),
    {
        self.insert(name, ShaderSource::new(vertex_shader, fragment_shader));
    }

    /// Registers a copy of `shader_src` under `name`, in place of the shader
    /// source that may have been registered under it.
    pub fn register_from_source(&mut self, name: &str, shader_src: &ShaderSource)
        requires
            old(self).wf(),
        ensures
            final(self).wf(),
            final(self)@ == old(self)@.insert(name@, shader_src@),
    {
        self.insert(
            name,
            ShaderSource::new(shader_src.get_vertex_shader(), shader_src.get_fragment_shader()),
        );
    }

    /// The shader source registered under `name`, if there is one.
    pub fn get(&self, name: &str) -> (source: Option<&ShaderSource>)
        requires
            self.wf(),
        ensures
            source.is_some() == self@.contains_key(name@),
            source matches Some(found) ==> found@ == self@[name@],
    {
        match self.position_of(name) {
            Some(position) => Some(&self.sources[position]),
            None => None,
        }
    }

    /// The number of registered names.
    pub fn len(&self) -> (len: usize)
        requires
            self.wf(),
        ensures
            self@.dom().finite(),
            len == self@.dom().len(),
    {
        proof {
            self.registered().unique_seq_to_set();
            assert(self@.dom() =~= self.registered().to_set());
        }
        self.names.len()
    }

    /// Whether no name is registered.
    pub fn is_empty(&self) -> (empty: bool)
        requires
            self.wf(),
        ensures
            empty == (self@ == Map::<Seq<char>, ShaderSourceView>::empty()),
    {
        proof {
            if self.names@.len() > 0 {
                assert(self.registered()[0] == self.names@[0]@);
                assert(self@.contains_key(self.names@[0]@));
            } else {
                assert(self@ =~= Map::<Seq<char>, ShaderSourceView>::empty());
            }
        }
        self.names.is_empty()
    }

    /// Puts `source` under `name`, in place of what may have been there.
    fn insert(&mut self, name: &str, source: ShaderSource)
        requires
            old(self).wf(),
        ensures
            final(self).wf(),
            final(self)@ == old(self)@.insert(name@, source@),
    {
        let ghost before = *self;
        match self.position_of(name) {
            Some(position) => {
                self.sources[position] = source;
                proof {
                    assert(self.registered() =~= before.registered());
                    assert forall|other: Seq<char>| #[trigger]
                        self.registered().contains(other) && other != name@ implies self.sources@[
                        self.registered().index_of(other)
                    ] == before.sources@[before.registered().index_of(other)] by {
                        let i = self.registered().index_of(other);
                        assert(self.registered()[i] == other);
                        assert(i != position);
                    }
                    assert(self@ =~= before@.insert(name@, source@));
                }
            },
            None => {
                self.names.push(String::from_str(name));
                self.sources.push(source);
                proof {
                    assert(self.registered() =~= before.registered().push(name@));
                    let last = before.names@.len() as int;
                    assert(self.registered()[last] == name@);
                    let found = self.registered().index_of(name@);
                    assert(self.registered()[found] == name@);
                    if found < last {
                        assert(before.registered()[found] == name@);
                    }
                    assert(self.sources@[found] == source);
                    let target = before@.insert(name@, source@);
                    assert forall|other: Seq<char>| self@.contains_key(other) implies #[trigger]
                        target.contains_key(other) by {
                        let i = self.registered().index_of(other);
                        assert(self.registered()[i] == other);
                        if i < last {
                            assert(before.registered()[i] == other);
                        }
                    }
                    assert forall|other: Seq<char>| target.contains_key(other) implies #[trigger]
                        self@.contains_key(other) by {
                        if other != name@ {
                            let i = before.registered().index_of(other);
                            assert(before.registered()[i] == other);
                            assert(self.registered()[i] == other);
                        }
                    }
                    assert forall|other: Seq<char>| #[trigger]
                        before.registered().contains(other) implies self.registered().index_of(
                        other,
                    ) == before.registered().index_of(other) by {
                        let i = before.registered().index_of(other);
                        let j = self.registered().index_of(other);
                        assert(self.registered()[i] == other);
                        assert(self.registered()[j] == other);
                    }
                    assert(self@ =~= before@.insert(name@, source@));
                }
            },
        }
    }

    /// The place of the source registered under `name`, if there is one.
    fn position_of(&self, name: &str) -> (position: Option<usize>)
        requires
            self.wf(),
        ensures
            position.is_some() == self.registered().contains(name@),
            position matches Some(p) ==> p < self.names@.len() && self.registered()[p as int]
                == name@ && self.registered().index_of(name@) == p,
    {
        let wanted = String::from_str(name);
        let mut position: usize = 0;
        while position < self.names.len()
            invariant
                position <= self.names@.len(),
                wanted@ == name@,
                self.wf(),
                forall|i: int| 0 <= i < position ==> self.registered()[i] != name@,
            decreases self.names@.len() - position,
        {
            if self.names[position] == wanted {
                proof {
                    assert(self.registered()[position as int] == name@);
                    let chosen = self.registered().index_of(name@);
                    assert(self.registered()[chosen] == name@);
                    assert(chosen == position);
                }
                return Some(position);
            }
            assert(self.registered()[position as int] != name@);
            position = position + 1;
        }
        None
    }
}

} // verus!
