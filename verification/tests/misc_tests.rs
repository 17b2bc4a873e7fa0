use render_core::stat::SceneLoadingState;
use render_core::unity::{
    Channel, Component, SubMesh, UnityVertexAttribute, UnityVertexAttributeDescriptor,
    UnityVertexFormat,
};
use render_core::utils::parse_unity_index_buffer;

#[test]
fn parse_index_buffer_reads_eight_digit_words() {
    let indices = parse_unity_index_buffer("00000000000000010000000a");
    assert_eq!(indices, vec![0, 1, 10]);
}

#[test]
fn parse_index_buffer_ignores_whitespace_and_tail() {
    let indices = parse_unity_index_buffer("0000 00ff\n000000 10\t123");
    assert_eq!(indices, vec![255, 16]);
    assert_eq!(parse_unity_index_buffer(""), Vec::<u32>::new());
    assert_eq!(parse_unity_index_buffer("abc"), Vec::<u32>::new());
}

#[test]
fn parse_index_buffer_handles_both_digit_cases() {
    let indices = parse_unity_index_buffer("DEADbeefFFFFFFFF");
    assert_eq!(indices, vec![0xDEADBEEF, 0xFFFFFFFF]);
}

#[test]
fn vertex_attribute_codes_round_trip() {
    assert_eq!(UnityVertexAttribute::from_u8(0), UnityVertexAttribute::Position);
    assert_eq!(UnityVertexAttribute::from_u8(1), UnityVertexAttribute::Normal);
    assert_eq!(UnityVertexAttribute::from_u8(4), UnityVertexAttribute::TexCoord0);
    assert_eq!(UnityVertexAttribute::from_u8(9), UnityVertexAttribute::BlendIndices);
    // unknown codes fall back to the position attribute
    assert_eq!(UnityVertexAttribute::from_u8(200), UnityVertexAttribute::Position);
}

#[test]
fn vertex_attribute_to_byte_inverts_from_u8() {
    for code in 0..10u8 {
        assert_eq!(u8::from(UnityVertexAttribute::from_u8(code)), code);
    }
}

#[test]
fn vertex_format_codes() {
    assert_eq!(UnityVertexFormat::from_u8(0), UnityVertexFormat::Float32);
    assert_eq!(UnityVertexFormat::from_u8(1), UnityVertexFormat::Float16);
    assert_eq!(UnityVertexFormat::from_u8(11), UnityVertexFormat::SInt32);
    assert_eq!(UnityVertexFormat::from_u8(12), UnityVertexFormat::Zero);
}

#[test]
fn descriptor_sizes_and_locations() {
    let d = UnityVertexAttributeDescriptor {
        attribute: UnityVertexAttribute::Normal,
        stream: 0,
        offset: 12,
        format: UnityVertexFormat::Float32,
        dimension: 3,
    };
    assert_eq!(d.size_in_bytes(), 12);
    assert_eq!(d.shader_location(), 1);

    let half4 = UnityVertexAttributeDescriptor {
        attribute: UnityVertexAttribute::Tangent,
        stream: 0,
        offset: 0,
        format: UnityVertexFormat::Float16,
        dimension: 52,
    };
    assert_eq!(half4.size_in_bytes(), 8);
    assert_eq!(half4.shader_location(), 2);

    let absent = UnityVertexAttributeDescriptor {
        attribute: UnityVertexAttribute::Color,
        stream: 0,
        offset: 0,
        format: UnityVertexFormat::Zero,
        dimension: 4,
    };
    assert_eq!(absent.size_in_bytes(), 0);
}

#[test]
fn loading_state_predicates() {
    assert!(SceneLoadingState::LoadingAssets.is_busy());
    assert!(!SceneLoadingState::LoadingAssets.can_load());
    assert!(!SceneLoadingState::LoadingAssets.is_error());

    assert!(!SceneLoadingState::Ready.is_busy());
    assert!(SceneLoadingState::Ready.can_load());

    assert!(SceneLoadingState::AssetLoadError.is_error());
    assert!(SceneLoadingState::AssetLoadError.can_load());

    let s = SceneLoadingState::default();
    assert_eq!(s, SceneLoadingState::Idle);
}

#[test]
fn importer_records_hold_their_fields() {
    let c = Component { file_id: 42 };
    assert_eq!(c.file_id, 42);
    let ch = Channel { stream: 0, offset: 12, format: 0, dimension: 3 };
    assert_eq!(ch.dimension, 3);
    let sm = SubMesh {
        first_byte: 0,
        index_count: 36,
        topology: 0,
        base_vertex: 0,
        first_vertex: 0,
        vertex_count: 24,
    };
    assert_eq!(sm.index_count, 36);
}
