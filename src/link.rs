//! Binding a linked shader program's variables to the renderer's parameters.
//!
//! The program reports the names of its uniforms, uniform blocks and textures.
//! The renderer's parameters are the uniforms `projection` and `view` and the
//! texture `s_texture`; it has no blocks. Every variable of the program must be
//! one of these, else binding fails naming the first one that is not.
use vstd::prelude::*;

verus! {

/// The variable names a linked program reports, each list in the program's order.
#[derive(Debug, Clone)]
pub struct ProgramVars {
    pub uniforms: Vec<String>,
    pub blocks: Vec<String>,
    pub textures: Vec<String>,
}

/// Where each parameter goes in the program: the index of its variable, if the
/// program uses it.
#[derive(Debug, Clone, Copy, PartialEq, Eq)]
pub struct ParamLink {
    pub projection: Option<usize>,
    pub view: Option<usize>,
    pub s_texture: Option<usize>,
}

/// A program variable that the parameters do not provide.
#[derive(Debug, Clone, PartialEq, Eq)]
pub enum LinkError {
    MissingUniform(String),
    MissingBlock(String),
    MissingTexture(String),
}

/// `ParamLink` with indices as integers.
pub struct LinkModel {
    pub projection: Option<int>,
    pub view: Option<int>,
    pub s_texture: Option<int>,
}

/// `LinkError` with names as character sequences.
pub enum LinkErrorModel {
    MissingUniform(Seq<char>),
    MissingBlock(Seq<char>),
    MissingTexture(Seq<char>),
}

pub open spec fn index_view(o: Option<usize>) -> Option<int> {
    match o {
        Some(i) => Some(i as int),
        None => None,
    }
}

impl View for ParamLink {
    type V = LinkModel;

    open spec fn view(&self) -> LinkModel {
        LinkModel {
            projection: index_view(self.projection),
            view: index_view(self.view),
            s_texture: index_view(self.s_texture),
        }
    }
}

impl View for LinkError {
    type V = LinkErrorModel;

    open spec fn view(&self) -> LinkErrorModel {
        match self {
            LinkError::MissingUniform(n) => LinkErrorModel::MissingUniform(n@),
            LinkError::MissingBlock(n) => LinkErrorModel::MissingBlock(n@),
            LinkError::MissingTexture(n) => LinkErrorModel::MissingTexture(n@),
        }
    }
}

pub open spec fn link_result_view(r: Result<ParamLink, LinkError>) -> Result<LinkModel, LinkErrorModel> {
    match r {
        Ok(l) => Ok(l@),
        Err(e) => Err(e@),
    }
}

/// The character sequences of a list of strings.
pub open spec fn names_of(v: Seq<String>) -> Seq<Seq<char>> {
    v.map_values(|s: String| s@)
}

/// Index of the last occurrence of `name` in `names`.
pub open spec fn last_index(names: Seq<Seq<char>>, name: Seq<char>) -> Option<int>
    decreases names.len(),
{
    if names.len() == 0 {
        None
    } else if names.last() == name {
        Some(names.len() - 1)
    } else {
        last_index(names.drop_last(), name)
    }
}

/// Index of the first name in `names` that `known` does not hold.
pub open spec fn first_unknown(names: Seq<Seq<char>>, known: Seq<Seq<char>>) -> Option<int>
    decreases names.len(),
{
    if names.len() == 0 {
        None
    } else {
        match first_unknown(names.drop_last(), known) {
            Some(i) => Some(i),
            None => if known.contains(names.last()) {
                None
            } else {
                Some(names.len() - 1)
            },
        }
    }
}

pub open spec fn uniform_names() -> Seq<Seq<char>> {
    seq!["projection"@, "view"@]
}

pub open spec fn texture_names() -> Seq<Seq<char>> {
    seq!["s_texture"@]
}

/// What binding the parameters to a program with these variables gives.
pub open spec fn link_spec(
    uniforms: Seq<Seq<char>>,
    blocks: Seq<Seq<char>>,
    textures: Seq<Seq<char>>,
) -> Result<LinkModel, LinkErrorModel> {
    if let Some(i) = first_unknown(uniforms, uniform_names()) {
        Err(LinkErrorModel::MissingUniform(uniforms[i]))
    } else if blocks.len() > 0 {
        Err(LinkErrorModel::MissingBlock(blocks[0]))
    } else if let Some(i) = first_unknown(textures, texture_names()) {
        Err(LinkErrorModel::MissingTexture(textures[i]))
    } else {
        Ok(
            LinkModel {
                projection: last_index(uniforms, "projection"@),
                view: last_index(uniforms, "view"@),
                s_texture: last_index(textures, "s_texture"@),
            },
        )
    }
}

proof fn lemma_last_index_found(names: Seq<Seq<char>>, name: Seq<char>)
    ensures
        match last_index(names, name) {
            Some(i) => {
                &&& 0 <= i < names.len()
                &&& names[i] == name
                &&& forall|j: int| i < j < names.len() ==> names[j] != name
            },
            None => !names.contains(name),
        },
    decreases names.len(),
{
    if names.len() > 0 {
        let rest = names.drop_last();
        lemma_last_index_found(rest, name);
        if names.last() != name {
            match last_index(rest, name) {
                Some(i) => {
                    assert(names[i] == rest[i]);
                    assert forall|j: int| i < j < names.len() implies names[j] != name by {
                        if j < names.len() - 1 {
                            assert(names[j] == rest[j]);
                        }
                    }
                },
                None => {
                    if names.contains(name) {
                        let j = choose|j: int| 0 <= j < names.len() && names[j] == name;
                        assert(rest[j] == name);
                    }
                },
            }
        }
    }
}

proof fn lemma_first_unknown_none(names: Seq<Seq<char>>, known: Seq<Seq<char>>)
    requires
        first_unknown(names, known) is None,
    ensures
        forall|j: int| 0 <= j < names.len() ==> known.contains(#[trigger] names[j]),
    decreases names.len(),
{
    if names.len() > 0 {
        lemma_first_unknown_none(names.drop_last(), known);
        assert forall|j: int| 0 <= j < names.len() implies known.contains(#[trigger] names[j]) by {
            if j < names.len() - 1 {
                assert(names.drop_last()[j] == names[j]);
            }
        }
    }
}

/// When binding succeeds, the program has no blocks, each of its uniforms is
/// `projection` or `view`, each of its textures is `s_texture`, and each
/// parameter is bound to the last variable of its own name, or to none when
/// the program has no variable of that name.
pub proof fn lemma_link_binds_by_name(
    uniforms: Seq<Seq<char>>,
    blocks: Seq<Seq<char>>,
    textures: Seq<Seq<char>>,
)
    requires
        link_spec(uniforms, blocks, textures) is Ok,
    ensures
        blocks.len() == 0,
        forall|j: int|
            0 <= j < uniforms.len() ==> #[trigger] uniforms[j] == "projection"@ || uniforms[j]
                == "view"@,
        forall|j: int| 0 <= j < textures.len() ==> #[trigger] textures[j] == "s_texture"@,
        ({
            let l = link_spec(uniforms, blocks, textures)->Ok_0;
            &&& l.projection matches Some(i) ==> 0 <= i < uniforms.len() && uniforms[i]
                == "projection"@
            &&& l.projection is None ==> !uniforms.contains("projection"@)
            &&& l.view matches Some(i) ==> 0 <= i < uniforms.len() && uniforms[i] == "view"@
            &&& l.view is None ==> !uniforms.contains("view"@)
            &&& l.s_texture matches Some(i) ==> 0 <= i < textures.len() && textures[i]
                == "s_texture"@
            &&& l.s_texture is None ==> !textures.contains("s_texture"@)
        }),
{
    lemma_first_unknown_none(uniforms, uniform_names());
    lemma_first_unknown_none(textures, texture_names());
    assert forall|j: int| 0 <= j < uniforms.len() implies #[trigger] uniforms[j] == "projection"@
        || uniforms[j] == "view"@ by {
        let k = choose|k: int| 0 <= k < 2 && uniform_names()[k] == uniforms[j];
    }
    assert forall|j: int| 0 <= j < textures.len() implies #[trigger] textures[j]
        == "s_texture"@ by {
        let k = choose|k: int| 0 <= k < 1 && texture_names()[k] == textures[j];
    }
    lemma_last_index_found(uniforms, "projection"@);
    lemma_last_index_found(uniforms, "view"@);
    lemma_last_index_found(textures, "s_texture"@);
}

proof fn lemma_step(names: Seq<Seq<char>>, known: Seq<Seq<char>>, i: int)
    requires
        0 <= i < names.len(),
    ensures
        forall|x: Seq<char>|
            #[trigger] last_index(names.take(i + 1), x) == if names[i] == x {
                Some(i)
            } else {
                last_index(names.take(i), x)
            },
        first_unknown(names.take(i + 1), known) == match first_unknown(names.take(i), known) {
            Some(j) => Some(j),
            None => if known.contains(names[i]) {
                None
            } else {
                Some(i)
            },
        },
{
    assert(names.take(i + 1).drop_last() =~= names.take(i));
    assert(names.take(i + 1).last() == names[i]);
}

proof fn lemma_first_unknown_prefix(names: Seq<Seq<char>>, known: Seq<Seq<char>>, j: int)
    requires
        0 <= j <= names.len(),
        first_unknown(names.take(j), known) is Some,
    ensures
        first_unknown(names, known) == first_unknown(names.take(j), known),
    decreases names.len(),
{
    if j == names.len() {
        assert(names.take(j) =~= names);
    } else {
        assert(names.drop_last().take(j) =~= names.take(j));
        lemma_first_unknown_prefix(names.drop_last(), known, j);
    }
}

/// For each name of `known`, the index of its last occurrence in `names`; or,
/// where some name of `names` is not known, the index of the first such.
fn bind_names(names: &Vec<String>, known: &Vec<String>) -> (r: Result<Vec<Option<usize>>, usize>)
    ensures
        match r {
            Err(i) => {
                &&& i < names@.len()
                &&& first_unknown(names_of(names@), names_of(known@)) == Some(i as int)
            },
            Ok(slots) => {
                &&& first_unknown(names_of(names@), names_of(known@)) is None
                &&& slots@.len() == known@.len()
                &&& forall|k: int|
                    0 <= k < slots@.len() ==> index_view(#[trigger] slots@[k]) == last_index(
                        names_of(names@),
                        known@[k]@,
                    )
            },
        },
{
    let ghost ns = names_of(names@);
    let ghost ks = names_of(known@);
    let mut slots: Vec<Option<usize>> = Vec::with_capacity(known.len());
    let mut k: usize = 0;
    while k < known.len()
        invariant
            0 <= k <= known@.len(),
            slots@.len() == k,
            forall|m: int| 0 <= m < k ==> (#[trigger] slots@[m]) is None,
        decreases known@.len() - k,
    {
        slots.push(None);
        k = k + 1;
    }
    assert(ns.take(0) =~= Seq::<Seq<char>>::empty());
    let mut i: usize = 0;
    while i < names.len()
        invariant
            ns == names_of(names@),
            ks == names_of(known@),
            0 <= i <= names@.len(),
            slots@.len() == known@.len(),
            first_unknown(ns.take(i as int), ks) is None,
            forall|m: int|
                0 <= m < slots@.len() ==> index_view(#[trigger] slots@[m]) == last_index(
                    ns.take(i as int),
                    known@[m]@,
                ),
        decreases names@.len() - i,
    {
        proof {
            lemma_step(ns, ks, i as int);
        }
        let ghost before = slots@;
        let mut found = false;
        let mut k: usize = 0;
        while k < known.len()
            invariant
                ns == names_of(names@),
                ks == names_of(known@),
                0 <= i < names@.len(),
                0 <= k <= known@.len(),
                slots@.len() == known@.len(),
                before.len() == known@.len(),
                found <==> exists|m: int| 0 <= m < k && ks[m] == ns[i as int],
                forall|m: int|
                    0 <= m < k ==> #[trigger] slots@[m] == if known@[m]@ == names@[i as int]@ {
                        Some(i)
                    } else {
                        before[m]
                    },
                forall|m: int| k <= m < slots@.len() ==> #[trigger] slots@[m] == before[m],
            decreases known@.len() - k,
        {
            assert(ks[k as int] == known@[k as int]@);
            assert(ns[i as int] == names@[i as int]@);
            if names[i] == known[k] {
                slots.set(k, Some(i));
                found = true;
            }
            k = k + 1;
        }
        if !found {
            assert(!ks.contains(ns[i as int]));
            proof {
                lemma_first_unknown_prefix(ns, ks, i as int + 1);
            }
            return Err(i);
        }
        assert(ks.contains(ns[i as int]));
        i = i + 1;
    }
    assert(ns.take(names@.len() as int) =~= ns);
    Ok(slots)
}

/// Binds the parameters to a program's variables: `projection` and `view`
/// among its uniforms, `s_texture` among its textures, each at the index of
/// its last occurrence. Fails on the first uniform, block or texture, in that
/// order, that is not one of these.
pub fn create_link(vars: &ProgramVars) -> (r: Result<ParamLink, LinkError>)
    ensures
        link_result_view(r) == link_spec(
            names_of(vars.uniforms@),
            names_of(vars.blocks@),
            names_of(vars.textures@),
        ),
{
    let mut uniform_known: Vec<String> = Vec::with_capacity(2);
    uniform_known.push("projection".to_owned());
    uniform_known.push("view".to_owned());
    assert(names_of(uniform_known@) =~= uniform_names());
    let mut texture_known: Vec<String> = Vec::with_capacity(1);
    texture_known.push("s_texture".to_owned());
    assert(names_of(texture_known@) =~= texture_names());
    let uniform_slots = match bind_names(&vars.uniforms, &uniform_known) {
        Ok(slots) => slots,
        Err(i) => {
            return Err(LinkError::MissingUniform(vars.uniforms[i].clone()));
        },
    };
    if vars.blocks.len() > 0 {
        return Err(LinkError::MissingBlock(vars.blocks[0].clone()));
    }
    let texture_slots = match bind_names(&vars.textures, &texture_known) {
        Ok(slots) => slots,
        Err(i) => {
            return Err(LinkError::MissingTexture(vars.textures[i].clone()));
        },
    };
    Ok(ParamLink { projection: uniform_slots[0], view: uniform_slots[1], s_texture: texture_slots[0] })
}

} // verus!
