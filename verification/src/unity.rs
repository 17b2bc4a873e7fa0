//! The typed records the asset importer hands to the core, and the vertex
//! attribute vocabulary of the imported mesh format.

use vstd::prelude::*;

verus! {

/// A reference to another object of the same file, by file id.
#[derive(Clone, Copy, PartialEq, Eq, Structural, Debug)]
pub struct Component {
    pub file_id: u32,
}

/// An imported record that knows its own kind name.
pub trait UnityAsset {
    fn name(&self) -> &'static str;
}

/// One component slot of a game object.
#[derive(Clone, Copy, PartialEq, Eq, Structural, Debug)]
pub struct ComponentEntry {
    pub component: Component,
}

/// An imported game object: its component list, name, layer, and whether
/// it starts active.
#[derive(Debug)]
pub struct UnityGameObject {
    pub m_component: Vec<ComponentEntry>,
    pub m_name: String,
    pub m_layer: i8,
    pub m_is_active: i8,
}

impl UnityAsset for UnityGameObject {
    fn name(&self) -> &'static str {
        "UnityGameObject"
    }
}

/// A reference to content in another file: file id, content GUID (as the
/// file spells it), and reference type.
#[derive(Clone, PartialEq, Eq, Debug)]
pub struct UnityReference {
    pub file_id: i64,
    pub guid: String,
    pub ref_type: i32,
}

/// A texture reference; built-in textures carry no GUID.
#[derive(Clone, PartialEq, Eq, Debug)]
pub struct TextureReference {
    pub file_id: i64,
    pub guid: Option<String>,
    pub ref_type: Option<i32>,
}

/// An imported mesh renderer: the game object it hangs on and its
/// material references.
#[derive(Debug)]
pub struct UnityMeshRenderer {
    pub file_id: u32,
    pub m_game_object: Component,
    pub m_children: Vec<UnityReference>,
}

impl UnityAsset for UnityMeshRenderer {
    fn name(&self) -> &'static str {
        "UnityMeshRenderer"
    }
}

/// An imported mesh filter: the game object it hangs on and its mesh
/// reference.
#[derive(Debug)]
pub struct UnityMeshFilter {
    pub file_id: u32,
    pub m_game_object: Component,
    pub m_mesh: UnityReference,
}

impl UnityAsset for UnityMeshFilter {
    fn name(&self) -> &'static str {
        "UnityMeshFilter"
    }
}

/// An imported mesh collider.
#[derive(Debug)]
pub struct UnityMeshCollider {
    pub file_id: u32,
    pub m_game_object: Component,
    pub m_mesh: UnityReference,
    pub m_is_trigger: i8,
    pub m_enabled: i8,
}

impl UnityAsset for UnityMeshCollider {
    fn name(&self) -> &'static str {
        "UnityMeshCollider"
    }
}

/// One sub-mesh range of an imported mesh's index buffer.
#[derive(Clone, Copy, PartialEq, Eq, Structural, Debug)]
pub struct SubMesh {
    pub first_byte: u32,
    pub index_count: u32,
    pub topology: u32,
    pub base_vertex: u32,
    pub first_vertex: u32,
    pub vertex_count: u32,
}

/// One raw vertex channel of an imported mesh.
#[derive(Clone, Copy, PartialEq, Eq, Structural, Debug)]
pub struct Channel {
    pub stream: u8,
    pub offset: u8,
    pub format: u8,
    pub dimension: u8,
}

/// The vertex attributes the imported format can carry.
#[derive(Clone, Copy, PartialEq, Eq, Structural, Hash, Debug)]
pub enum UnityVertexAttribute {
    Position,
    Normal,
    Tangent,
    Color,
    TexCoord0,
    TexCoord1,
    TexCoord2,
    TexCoord3,
    BlendWeight,
    BlendIndices,
}

impl UnityVertexAttribute {
    /// The attribute encoded by a channel index; unknown values fall back
    /// to the position attribute.
    pub fn from_u8(value: u8) -> (r: UnityVertexAttribute)
        ensures
            r == Self::spec_from_u8(value),
    {
        match value {
            0 => UnityVertexAttribute::Position,
            1 => UnityVertexAttribute::Normal,
            2 => UnityVertexAttribute::Tangent,
            3 => UnityVertexAttribute::Color,
            4 => UnityVertexAttribute::TexCoord0,
            5 => UnityVertexAttribute::TexCoord1,
            6 => UnityVertexAttribute::TexCoord2,
            7 => UnityVertexAttribute::TexCoord3,
            8 => UnityVertexAttribute::BlendWeight,
            9 => UnityVertexAttribute::BlendIndices,
            _ => UnityVertexAttribute::Position,
        }
    }

    pub open spec fn spec_from_u8(value: u8) -> UnityVertexAttribute {
        if value == 0 {
            UnityVertexAttribute::Position
        } else if value == 1 {
            UnityVertexAttribute::Normal
        } else if value == 2 {
            UnityVertexAttribute::Tangent
        } else if value == 3 {
            UnityVertexAttribute::Color
        } else if value == 4 {
            UnityVertexAttribute::TexCoord0
        } else if value == 5 {
            UnityVertexAttribute::TexCoord1
        } else if value == 6 {
            UnityVertexAttribute::TexCoord2
        } else if value == 7 {
            UnityVertexAttribute::TexCoord3
        } else if value == 8 {
            UnityVertexAttribute::BlendWeight
        } else if value == 9 {
            UnityVertexAttribute::BlendIndices
        } else {
            UnityVertexAttribute::Position
        }
    }
}

impl From<UnityVertexAttribute> for u8 {
    fn from(attr: UnityVertexAttribute) -> (r: u8) {
        match attr {
            UnityVertexAttribute::Position => 0,
            UnityVertexAttribute::Normal => 1,
            UnityVertexAttribute::Tangent => 2,
            UnityVertexAttribute::Color => 3,
            UnityVertexAttribute::TexCoord0 => 4,
            UnityVertexAttribute::TexCoord1 => 5,
            UnityVertexAttribute::TexCoord2 => 6,
            UnityVertexAttribute::TexCoord3 => 7,
            UnityVertexAttribute::BlendWeight => 8,
            UnityVertexAttribute::BlendIndices => 9,
        }
    }
}

impl vstd::std_specs::convert::FromSpecImpl<UnityVertexAttribute> for u8 {
    open spec fn obeys_from_spec() -> bool {
        true
    }

    open spec fn from_spec(attr: UnityVertexAttribute) -> u8 {
        match attr {
            UnityVertexAttribute::Position => 0,
            UnityVertexAttribute::Normal => 1,
            UnityVertexAttribute::Tangent => 2,
            UnityVertexAttribute::Color => 3,
            UnityVertexAttribute::TexCoord0 => 4,
            UnityVertexAttribute::TexCoord1 => 5,
            UnityVertexAttribute::TexCoord2 => 6,
            UnityVertexAttribute::TexCoord3 => 7,
            UnityVertexAttribute::BlendWeight => 8,
            UnityVertexAttribute::BlendIndices => 9,
        }
    }
}

/// The scalar formats the imported format can carry.
#[derive(Clone, Copy, PartialEq, Eq, Structural, Debug)]
pub enum UnityVertexFormat {
    Float32,
    Float16,
    UNorm8,
    SNorm8,
    UNorm16,
    SNorm16,
    UInt8,
    SInt8,
    UInt16,
    SInt16,
    UInt32,
    SInt32,
    Zero,
}

impl UnityVertexFormat {
    /// The format encoded by a channel byte; unknown values mean "absent".
    pub fn from_u8(value: u8) -> (r: UnityVertexFormat)
        ensures
            r == Self::spec_from_u8(value),
    {
        match value {
            0 => UnityVertexFormat::Float32,
            1 => UnityVertexFormat::Float16,
            2 => UnityVertexFormat::UNorm8,
            3 => UnityVertexFormat::SNorm8,
            4 => UnityVertexFormat::UNorm16,
            5 => UnityVertexFormat::SNorm16,
            6 => UnityVertexFormat::UInt8,
            7 => UnityVertexFormat::SInt8,
            8 => UnityVertexFormat::UInt16,
            9 => UnityVertexFormat::SInt16,
            10 => UnityVertexFormat::UInt32,
            11 => UnityVertexFormat::SInt32,
            _ => UnityVertexFormat::Zero,
        }
    }

    pub open spec fn spec_from_u8(value: u8) -> UnityVertexFormat {
        if value == 0 {
            UnityVertexFormat::Float32
        } else if value == 1 {
            UnityVertexFormat::Float16
        } else if value == 2 {
            UnityVertexFormat::UNorm8
        } else if value == 3 {
            UnityVertexFormat::SNorm8
        } else if value == 4 {
            UnityVertexFormat::UNorm16
        } else if value == 5 {
            UnityVertexFormat::SNorm16
        } else if value == 6 {
            UnityVertexFormat::UInt8
        } else if value == 7 {
            UnityVertexFormat::SInt8
        } else if value == 8 {
            UnityVertexFormat::UInt16
        } else if value == 9 {
            UnityVertexFormat::SInt16
        } else if value == 10 {
            UnityVertexFormat::UInt32
        } else if value == 11 {
            UnityVertexFormat::SInt32
        } else {
            UnityVertexFormat::Zero
        }
    }

    /// Bytes per scalar of this format (0 for an absent channel).
    pub open spec fn spec_size(self) -> u8 {
        match self {
            UnityVertexFormat::Float32 => 4,
            UnityVertexFormat::Float16 => 2,
            UnityVertexFormat::UNorm8 => 1,
            UnityVertexFormat::SNorm8 => 1,
            UnityVertexFormat::UInt8 => 1,
            UnityVertexFormat::SInt8 => 1,
            UnityVertexFormat::UNorm16 => 2,
            UnityVertexFormat::SNorm16 => 2,
            UnityVertexFormat::UInt16 => 2,
            UnityVertexFormat::SInt16 => 2,
            UnityVertexFormat::UInt32 => 4,
            UnityVertexFormat::SInt32 => 4,
            UnityVertexFormat::Zero => 0,
        }
    }
}

/// One attribute of a vertex layout: which attribute, where it sits, its
/// scalar format and how many scalars it spans.
#[derive(Clone, Copy, PartialEq, Eq, Structural, Debug)]
pub struct UnityVertexAttributeDescriptor {
    pub attribute: UnityVertexAttribute,
    pub stream: u8,
    pub offset: u8,
    pub format: UnityVertexFormat,
    pub dimension: u8,
}

impl UnityVertexAttributeDescriptor {
    /// The effective scalar count: the file encodes a four-component
    /// half-float channel as dimension 52.
    pub open spec fn spec_dimension(self) -> u8 {
        if self.dimension == 52 {
            4
        } else {
            self.dimension
        }
    }

    /// Total bytes this attribute occupies in one vertex. The imported
    /// format only uses dimensions up to 4 (plus the marker 52), so the
    /// product fits a byte.
    pub fn size_in_bytes(&self) -> (r: u8)
        requires
            self.spec_dimension() <= 63,
        ensures
            r == self.format.spec_size() * self.spec_dimension(),
    {
        let code: u8 = match self.format {
            UnityVertexFormat::Float32 => 4,
            UnityVertexFormat::Float16 => 2,
            UnityVertexFormat::UNorm8
            | UnityVertexFormat::SNorm8
            | UnityVertexFormat::UInt8
            | UnityVertexFormat::SInt8 => 1,
            UnityVertexFormat::UNorm16
            | UnityVertexFormat::SNorm16
            | UnityVertexFormat::UInt16
            | UnityVertexFormat::SInt16 => 2,
            UnityVertexFormat::UInt32 | UnityVertexFormat::SInt32 => 4,
            UnityVertexFormat::Zero => 0,
        };
        let dimension: u8 = if self.dimension == 52 {
            4
        } else {
            self.dimension
        };
        code * dimension
    }

    /// The shader input slot of this attribute, in the importer's fixed
    /// attribute order.
    pub fn shader_location(&self) -> (r: u32)
        ensures
            r == Self::spec_shader_location(self.attribute),
    {
        match self.attribute {
            UnityVertexAttribute::Position => 0,
            UnityVertexAttribute::Normal => 1,
            UnityVertexAttribute::Tangent => 2,
            UnityVertexAttribute::Color => 3,
            UnityVertexAttribute::TexCoord0 => 4,
            UnityVertexAttribute::TexCoord1 => 5,
            UnityVertexAttribute::TexCoord2 => 6,
            UnityVertexAttribute::TexCoord3 => 7,
            UnityVertexAttribute::BlendWeight => 8,
            UnityVertexAttribute::BlendIndices => 9,
        }
    }

    pub open spec fn spec_shader_location(a: UnityVertexAttribute) -> u32 {
        match a {
            UnityVertexAttribute::Position => 0,
            UnityVertexAttribute::Normal => 1,
            UnityVertexAttribute::Tangent => 2,
            UnityVertexAttribute::Color => 3,
            UnityVertexAttribute::TexCoord0 => 4,
            UnityVertexAttribute::TexCoord1 => 5,
            UnityVertexAttribute::TexCoord2 => 6,
            UnityVertexAttribute::TexCoord3 => 7,
            UnityVertexAttribute::BlendWeight => 8,
            UnityVertexAttribute::BlendIndices => 9,
        }
    }
}

} // verus!
