use opalite::{BufferError, Component, ComponentIter, Config, ConfigBuilder, RenderError, ShaderKey};

fn base_config() -> Config {
    Config {
        title: String::from("base"),
        window_dimensions: (800, 600),
        shaders: vec![(ShaderKey::new(String::from("main")), String::from("shaders/main"))],
        map_dimensions: (5, 1, 5),
        resources: vec![String::from("resources/base.zip")],
        fonts: vec![String::from("fonts/base.ttf")],
        font_resolution: 64,
    }
}

fn empty_builder() -> ConfigBuilder {
    ConfigBuilder {
        title: None,
        window_dimensions: None,
        shaders: None,
        map_dimensions: None,
        resources: None,
        fonts: None,
        font_resolution: None,
    }
}

#[test]
fn merge_with_no_overrides_changes_nothing() {
    let merged = base_config().merge(empty_builder());
    assert_eq!(merged.title, "base");
    assert_eq!(merged.window_dimensions, (800, 600));
    assert_eq!(merged.map_dimensions, (5, 1, 5));
    assert_eq!(merged.resources, vec![String::from("resources/base.zip")]);
    assert_eq!(merged.fonts, vec![String::from("fonts/base.ttf")]);
    assert_eq!(merged.font_resolution, 64);
    assert_eq!(merged.shaders.len(), 1);
}

#[test]
fn present_overrides_replace_plain_fields() {
    let mut builder = empty_builder();
    builder.title = Some(String::from("override"));
    builder.window_dimensions = Some((1024, 768));
    builder.map_dimensions = Some((9, 9, 9));
    builder.font_resolution = Some(128);
    let merged = base_config().merge(builder);
    assert_eq!(merged.title, "override");
    assert_eq!(merged.window_dimensions, (1024, 768));
    assert_eq!(merged.map_dimensions, (9, 9, 9));
    assert_eq!(merged.font_resolution, 128);
}

#[test]
fn merged_shaders_win_name_lookups() {
    let mut builder = empty_builder();
    builder.shaders = Some(vec![
        (ShaderKey::new(String::from("main")), String::from("shaders/other")),
        (ShaderKey::new(String::from("ui")), String::from("shaders/ui")),
    ]);
    let merged = base_config().merge(builder);
    // Both the override entries and the base entry are kept...
    assert_eq!(merged.shaders.len(), 3);
    // ...and the override entry shadows the base entry of the same name.
    let path = merged.shader_path(&ShaderKey::new(String::from("main")));
    assert_eq!(path, Some(&String::from("shaders/other")));
    let path = merged.shader_path(&ShaderKey::new(String::from("ui")));
    assert_eq!(path, Some(&String::from("shaders/ui")));
    assert_eq!(merged.shader_path(&ShaderKey::new(String::from("missing"))), None);
}

#[test]
fn override_resources_come_first_and_fonts_accumulate() {
    let mut builder = empty_builder();
    builder.resources = Some(vec![String::from("resources/extra.zip")]);
    builder.fonts = Some(vec![String::from("fonts/extra.ttf")]);
    let merged = base_config().merge(builder);
    assert_eq!(
        merged.resources,
        vec![String::from("resources/extra.zip"), String::from("resources/base.zip")],
    );
    assert_eq!(
        merged.fonts,
        vec![String::from("fonts/base.ttf"), String::from("fonts/extra.ttf")],
    );
}

#[test]
fn shader_keys_compare_by_name() {
    let a = ShaderKey::new(String::from("main"));
    let b = ShaderKey::new(String::from("main"));
    let c = ShaderKey::new(String::from("ui"));
    assert!(a == b);
    assert!(a != c);
    assert_eq!(a.name(), "main");
    assert_eq!(a.clone().name(), "main");
}

#[derive(Debug, PartialEq, Eq, Clone, Copy)]
struct Hitpoints(u32);

impl Component for Hitpoints {}

#[test]
fn component_cursor_walks_front_to_back() {
    let mut cursor = ComponentIter::new(vec![Hitpoints(1), Hitpoints(2), Hitpoints(3)]);
    assert_eq!(cursor.next(), Some(&Hitpoints(1)));
    assert_eq!(cursor.next(), Some(&Hitpoints(2)));
    assert_eq!(cursor.next(), Some(&Hitpoints(3)));
    assert_eq!(cursor.next(), None);
    assert_eq!(cursor.next(), None);
}

#[test]
fn error_messages_name_their_failure() {
    assert_eq!(BufferError::UploadType.message(), "Cannot find valid memory type");
    assert_eq!(BufferError::ZST.message(), "Cannot create a buffer from ZST");
    assert_eq!(RenderError::WindowSize.message(), "Cannot get window size.");
    assert_eq!(RenderError::ShaderModuleFail("vertex").message(), "Shader module creation failed.");
}
