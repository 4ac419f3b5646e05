//! Bootstrap configuration and its merge rules.
//!
//! A [`Config`] carries the startup parameters the simulation core
//! consumes (most importantly the map dimensions); a [`ConfigBuilder`]
//! holds optional overrides.  Reading configuration files belongs to
//! the embedding code; the merge logic lives here and is exact: each
//! present override wins, shader entries layer over the existing ones,
//! override resource archives take precedence, and fonts accumulate.

use vstd::prelude::*;

use crate::shader::ShaderKey;

verus! {

/// Startup parameters.  Paths are carried as plain strings; the
/// embedding code resolves and reads them.
#[derive(Debug)]
pub struct Config {
    pub title: String,
    pub window_dimensions: (u32, u32),
    pub shaders: Vec<(ShaderKey, String)>,
    pub map_dimensions: (i32, i32, i32),
    pub resources: Vec<String>,
    pub fonts: Vec<String>,
    pub font_resolution: u32,
}

/// Optional overrides to lay over a [`Config`].
#[derive(Debug)]
pub struct ConfigBuilder {
    pub title: Option<String>,
    pub window_dimensions: Option<(u32, u32)>,
    pub shaders: Option<Vec<(ShaderKey, String)>>,
    pub map_dimensions: Option<(i32, i32, i32)>,
    pub resources: Option<Vec<String>>,
    pub fonts: Option<Vec<String>>,
    pub font_resolution: Option<u32>,
}

impl Config {
    /// Lays the overrides of `other` over this configuration: a
    /// present field replaces the existing value; shader entries are
    /// put in front of the existing ones, so they win a name lookup;
    /// override resource archives come before the existing ones; fonts
    /// are appended behind the existing ones.
    pub fn merge(self, other: ConfigBuilder) -> (merged: Config)
        ensures
            merged.title@ == (match other.title {
                Some(title) => title@,
                None => self.title@,
            }),
            merged.window_dimensions == (match other.window_dimensions {
                Some(dimensions) => dimensions,
                None => self.window_dimensions,
            }),
            merged.shaders@ == (match other.shaders {
                Some(shaders) => shaders@ + self.shaders@,
                None => self.shaders@,
            }),
            merged.map_dimensions == (match other.map_dimensions {
                Some(dimensions) => dimensions,
                None => self.map_dimensions,
            }),
            merged.resources@ == (match other.resources {
                Some(resources) => resources@ + self.resources@,
                None => self.resources@,
            }),
            merged.fonts@ == (match other.fonts {
                Some(fonts) => self.fonts@ + fonts@,
                None => self.fonts@,
            }),
            merged.font_resolution == (match other.font_resolution {
                Some(resolution) => resolution,
                None => self.font_resolution,
            }),
    {
        let mut merged = self;
        match other.title {
            Some(title) => {
                merged.title = title;
            },
            None => {},
        }
        match other.window_dimensions {
            Some(dimensions) => {
                merged.window_dimensions = dimensions;
            },
            None => {},
        }
        match other.shaders {
            Some(shaders) => {
                let mut shaders = shaders;
                shaders.append(&mut merged.shaders);
                merged.shaders = shaders;
            },
            None => {},
        }
        match other.map_dimensions {
            Some(dimensions) => {
                merged.map_dimensions = dimensions;
            },
            None => {},
        }
        match other.resources {
            Some(resources) => {
                let mut resources = resources;
                resources.append(&mut merged.resources);
                merged.resources = resources;
            },
            None => {},
        }
        match other.fonts {
            Some(mut fonts) => {
                merged.fonts.append(&mut fonts);
            },
            None => {},
        }
        match other.font_resolution {
            Some(resolution) => {
                merged.font_resolution = resolution;
            },
            None => {},
        }
        merged
    }

    /// The configured source path of a shader, if its key is known:
    /// the lookup half of shader loading.  The first entry holding the
    /// name wins, so merged overrides shadow what they replace.
    /// Reading and compiling the source stay with the embedding code.
    pub fn shader_path(&self, key: &ShaderKey) -> (r: Option<&String>)
        ensures
            match r {
                Some(path) => exists|i: int|
                    0 <= i < self.shaders@.len() && (#[trigger] self.shaders@[i]).0@ == key@
                        && path@ == self.shaders@[i].1@ && (forall|k: int|
                        0 <= k < i ==> (#[trigger] self.shaders@[k]).0@ != key@),
                None => forall|i: int|
                    0 <= i < self.shaders@.len() ==> (#[trigger] self.shaders@[i]).0@ != key@,
            },
    {
        let mut i: usize = 0;
        while i < self.shaders.len()
            invariant
                0 <= i <= self.shaders.len(),
                forall|k: int| 0 <= k < i ==> (#[trigger] self.shaders@[k]).0@ != key@,
            decreases self.shaders.len() - i,
        {
            if self.shaders[i].0.eq(key) {
                return Some(&self.shaders[i].1);
            }
            i = i + 1;
        }
        None
    }
}

} // verus!
