use codegen::Scope;
use silkroad_core::definition::{
    Context, EnumDef, EnumValue, PacketAttribute, PacketDefinition, PacketSource, StructDef,
};
use silkroad_core::reader::generate_reader_for_struct;
use silkroad_core::structure::{
    generate_constructor, generate_enum_def, generate_helper_struct, generate_struct_for_packet,
    get_full_attribute_type,
};
use silkroad_core::writer::generate_writer_for_struct;

fn attribute(name: &str, data_type: &str) -> PacketAttribute {
    PacketAttribute {
        name: name.to_string(),
        data_type: data_type.to_string(),
        inner: None,
        value: None,
    }
}

fn container(name: &str, data_type: &str, inner: &str) -> PacketAttribute {
    PacketAttribute { inner: Some(inner.to_string()), ..attribute(name, data_type) }
}

fn fixed(name: &str, data_type: &str, value: &str) -> PacketAttribute {
    PacketAttribute { value: Some(value.to_string()), ..attribute(name, data_type) }
}

#[test]
fn full_attribute_type_of_each_kind() {
    assert_eq!(get_full_attribute_type(&attribute("a", "u32")), "u32");
    assert_eq!(get_full_attribute_type(&container("a", "Vec", "u8")), "Vec<u8>");
    assert_eq!(get_full_attribute_type(&container("a", "Option", "String")), "Option<String>");
    assert_eq!(get_full_attribute_type(&attribute("a", "DateTime")), "DateTime<Utc>");
    assert_eq!(get_full_attribute_type(&attribute("a", "raw")), "Bytes");
    assert_eq!(get_full_attribute_type(&container("a", "ChatTarget", "u8")), "ChatTarget");
}

#[test]
fn plain_enum_derives_comparison_and_has_no_constructors() {
    let def = EnumDef {
        name: "ChatTarget".to_string(),
        values: vec![
            EnumValue { name: "All".to_string(), attributes: vec![] },
            EnumValue { name: "AllGm".to_string(), attributes: vec![] },
        ],
    };
    let mut scope = Scope::new();
    generate_enum_def(&def, &mut scope);
    assert_eq!(
        scope.to_string(),
        "#[derive(Clone, PartialEq, PartialOrd)]\n\
         pub enum ChatTarget {\n    All,\n    AllGm,\n}"
    );
}

#[test]
fn enum_with_fields_gets_lowercase_constructors() {
    let def = EnumDef {
        name: "ChatSource".to_string(),
        values: vec![
            EnumValue { name: "All".to_string(), attributes: vec![attribute("sender", "u32")] },
            EnumValue { name: "Nobody".to_string(), attributes: vec![] },
            EnumValue {
                name: "PrivateMessage".to_string(),
                attributes: vec![attribute("sender", "String"), fixed("kind", "u8", "2")],
            },
        ],
    };
    let mut scope = Scope::new();
    generate_enum_def(&def, &mut scope);
    assert_eq!(
        scope.to_string(),
        "#[derive(Clone)]\n\
         pub enum ChatSource {\n\
         \x20   All {\n\
         \x20       sender: u32,\n\
         \x20   }\n\
         \x20   ,\n\
         \x20   Nobody,\n\
         \x20   PrivateMessage {\n\
         \x20       sender: String,\n\
         \x20       kind: u8,\n\
         \x20   }\n\
         \x20   ,\n\
         }\n\
         \n\
         impl ChatSource {\n\
         \x20   pub fn all(sender: u32) -> Self {\n\
         \x20       ChatSource::All { sender,  }\n\
         \x20   }\n\
         \n\
         \x20   pub fn privatemessage(sender: String) -> Self {\n\
         \x20       ChatSource::PrivateMessage { sender, kind: 2,  }\n\
         \x20   }\n\
         }"
    );
}

#[test]
fn helper_struct_gets_public_fields_and_new() {
    let def = StructDef {
        name: "Mastery".to_string(),
        attributes: vec![attribute("id", "u32"), container("levels", "Vec", "u8")],
    };
    let mut scope = Scope::new();
    scope.raw("// generated");
    generate_helper_struct(&def, &mut scope);
    assert_eq!(
        scope.to_string(),
        "// generated\n\
         \n\
         #[derive(Clone)]\n\
         pub struct Mastery {\n\
         \x20   pub id: u32,\n\
         \x20   pub levels: Vec<u8>,\n\
         }\n\
         \n\
         impl Mastery {\n\
         \x20   pub fn new(id: u32, levels: Vec<u8>) -> Self {\n\
         \x20       Mastery { id, levels,  }\n\
         \x20   }\n\
         }"
    );
}

#[test]
fn client_packet_gets_a_decoder() {
    let packet = PacketDefinition {
        name: "LearnSkill".to_string(),
        source: PacketSource::Client,
        attributes: vec![attribute("skill", "u32")],
    };
    let context = Context { reader_name: "data_reader".to_string() };
    let mut scope = Scope::new();
    generate_struct_for_packet(&packet, &context, &mut scope);
    assert_eq!(
        scope.to_string(),
        "#[derive(Clone)]\n\
         pub struct LearnSkill {\n\
         \x20   pub skill: u32,\n\
         }\n\
         \n\
         impl TryFrom<Bytes> for LearnSkill {\n\
         \x20   type Error = ProtocolError;\n\
         \n\
         \x20   fn try_from(data: Bytes) -> Result<Self, Self::Error> {\n\
         \x20       let mut data_reader = data.reader();\n\
         \x20       let skill = data_reader.read::<u32>()?;\n\
         \x20       Ok(LearnSkill { skill,  })\n\
         \x20   }\n\
         }\n\
         \n\
         impl From<LearnSkill> for ClientPacket {\n\
         \x20   fn from(other: LearnSkill) -> Self {\n\
         \x20       ClientPacket::LearnSkill(other)\n\
         \x20   }\n\
         }"
    );
}

#[test]
fn server_packet_gets_an_encoder_and_new() {
    let packet = PacketDefinition {
        name: "Pong".to_string(),
        source: PacketSource::Server,
        attributes: vec![fixed("kind", "u8", "1"), attribute("stamp", "u64")],
    };
    let context = Context { reader_name: "data_reader".to_string() };
    let mut scope = Scope::new();
    generate_struct_for_packet(&packet, &context, &mut scope);
    assert_eq!(
        scope.to_string(),
        "#[derive(Clone)]\n\
         pub struct Pong {\n\
         \x20   pub kind: u8,\n\
         \x20   pub stamp: u64,\n\
         }\n\
         \n\
         impl From<Pong> for Bytes {\n\
         \x20   fn from(op: Pong) -> Bytes {\n\
         \x20       let mut data_writer = BytesMut::new();\n\
         \x20       data_writer.write(&1);\n\
         \x20       data_writer.write(&op.stamp);\n\
         \x20       data_writer.freeze()\n\
         \x20   }\n\
         }\n\
         \n\
         impl From<Pong> for ServerPacket {\n\
         \x20   fn from(other: Pong) -> Self {\n\
         \x20       ServerPacket::Pong(other)\n\
         \x20   }\n\
         }\n\
         \n\
         impl Pong {\n\
         \x20   pub fn new(stamp: u64) -> Self {\n\
         \x20       Pong { kind: 1, stamp,  }\n\
         \x20   }\n\
         }"
    );
}

#[test]
fn packet_of_both_directions_gets_five_impl_blocks() {
    let packet = PacketDefinition {
        name: "Ping".to_string(),
        source: PacketSource::Both,
        attributes: vec![],
    };
    let context = Context { reader_name: "r".to_string() };
    let mut scope = Scope::new();
    generate_struct_for_packet(&packet, &context, &mut scope);
    let text = scope.to_string();
    assert_eq!(text.matches("\nimpl ").count(), 5);
    assert!(text.starts_with("#[derive(Clone)]\npub struct Ping;\n"));
    assert!(text.contains("        Ok(Ping {  })\n"));
}

#[test]
fn constructor_takes_the_name_it_is_given() {
    let value = EnumValue {
        name: "Error".to_string(),
        attributes: vec![fixed("kind", "u8", "2"), container("codes", "Vec", "u16")],
    };
    let mut scope = Scope::new();
    scope.push_fn(generate_constructor("Answer", "failed", &value));
    assert_eq!(
        scope.to_string(),
        "pub fn failed(codes: Vec<u16>) -> Self {\n\
         \x20   Answer::Error { kind: 2, codes,  }\n\
         }"
    );
}

#[test]
fn reader_and_writer_lines_follow_the_declared_order() {
    let packet = PacketDefinition {
        name: "Move".to_string(),
        source: PacketSource::Both,
        attributes: vec![
            attribute("region", "u16"),
            container("height", "Option", "u16"),
            fixed("flag", "u8", "0x01"),
        ],
    };
    let context = Context { reader_name: "input".to_string() };
    let mut decoder = codegen::Function::new("decode");
    decoder.line("// start");
    generate_reader_for_struct(&packet, &context, &mut decoder, "Some(", ")");
    let mut encoder = codegen::Function::new("encode");
    generate_writer_for_struct(&packet, &mut encoder, None);
    let mut scope = Scope::new();
    scope.push_fn(decoder);
    scope.push_fn(encoder);
    assert_eq!(
        scope.to_string(),
        "fn decode() {\n\
         \x20   // start\n\
         \x20   let region = input.read::<u16>()?;\n\
         \x20   let height = input.read::<Option<u16>>()?;\n\
         \x20   let flag = input.read::<u8>()?;\n\
         \x20   Some(Move { region, height, flag,  })\n\
         }\n\
         \n\
         fn encode() {\n\
         \x20   data_writer.write(&region);\n\
         \x20   data_writer.write(&height);\n\
         \x20   data_writer.write(&0x01);\n\
         }"
    );
}
