//! The per-frame shader parameters and the table they are written into before
//! a draw.
//!
//! A matrix `M` is a value the shader reads as a uniform; a texture `T` is a
//! texture bound together with its sampler. Both are carried, never inspected.
use vstd::prelude::*;

verus! {

/// The parameters every draw hands to the shader program.
#[derive(Debug, Clone)]
pub struct ShaderParams<M, T> {
    pub projection: M,
    pub view: M,
    pub s_texture: T,
}

/// The values handed to the shader for one draw, each list in the order the
/// values were written.
#[derive(Debug, Clone)]
pub struct ParamTable<M, B, T> {
    pub uniforms: Vec<M>,
    pub blocks: Vec<B>,
    pub textures: Vec<T>,
}

impl<M, B, T> ParamTable<M, B, T> {
    /// An empty table.
    pub fn new() -> (r: Self)
        ensures
            r.uniforms@.len() == 0,
            r.blocks@.len() == 0,
            r.textures@.len() == 0,
    {
        ParamTable { uniforms: Vec::new(), blocks: Vec::new(), textures: Vec::new() }
    }
}

impl<M: Copy, T: Clone> ShaderParams<M, T> {
    /// Parameters with both matrices set to `initial` and `s_texture` bound.
    pub fn new(initial: M, s_texture: T) -> (r: Self)
        ensures
            r.projection == initial,
            r.view == initial,
            r.s_texture == s_texture,
    {
        ShaderParams { projection: initial, view: initial, s_texture }
    }

    /// Replaces the projection matrix; the rest is kept.
    pub fn set_projection(&mut self, proj_mat: M)
        ensures
            final(self).projection == proj_mat,
            final(self).view == old(self).view,
            final(self).s_texture == old(self).s_texture,
    {
        self.projection = proj_mat;
    }

    /// Replaces the view matrix; the rest is kept.
    pub fn set_view(&mut self, view_mat: M)
        ensures
            final(self).view == view_mat,
            final(self).projection == old(self).projection,
            final(self).s_texture == old(self).s_texture,
    {
        self.view = view_mat;
    }

    /// Writes the parameters into `out`: the projection and then the view
    /// matrix after its uniforms, a copy of the texture after its textures.
    /// Its blocks are left as they are.
    pub fn fill_params<B>(&self, out: &mut ParamTable<M, B, T>)
        ensures
            final(out).uniforms@ == old(out).uniforms@.push(self.projection).push(self.view),
            final(out).blocks@ == old(out).blocks@,
            final(out).textures@.len() == old(out).textures@.len() + 1,
            final(out).textures@.drop_last() == old(out).textures@,
            cloned(self.s_texture, final(out).textures@.last()),
    {
        out.uniforms.push(self.projection);
        out.uniforms.push(self.view);
        let texture = self.s_texture.clone();
        out.textures.push(texture);
        assert(out.textures@.drop_last() =~= old(out).textures@);
    }

    /// Copies of the parameters, to snapshot them for a buffer or refresh a
    /// buffer's snapshot before it is drawn.
    pub fn snapshot(&self) -> (r: Self)
        ensures
            r.projection == self.projection,
            r.view == self.view,
            cloned(self.s_texture, r.s_texture),
    {
        ShaderParams { projection: self.projection, view: self.view, s_texture: self.s_texture.clone() }
    }
}

} // verus!
