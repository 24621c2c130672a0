use ddb::resource::{
    clean_font_family, color_ref, drawable_name, extract_vector_paths, extract_weight, layout_attr,
    layout_key, layout_views, normalize_hex, padding_of, parse_color_xml, view_id, ColorRef, LayoutAttr,
};

#[test]
fn colour_forms() {
    assert_eq!(normalize_hex("#abc"), "#aabbcc");
    assert_eq!(normalize_hex("#fabc"), "#ffaabbcc");
    assert_eq!(normalize_hex("#a1b2c3"), "#a1b2c3");
    assert_eq!(normalize_hex("#80a1b2c3"), "#80a1b2c3");
    assert_eq!(normalize_hex("#1a2b3c"), "#1a2b3c");
    assert_eq!(normalize_hex("#8abc"), "#88aabbcc");
    assert_eq!(normalize_hex("red"), "RED");
}

#[test]
fn colour_references() {
    assert!(matches!(color_ref("#fff"), ColorRef::Literal(s) if s == "#fff"));
    assert!(matches!(color_ref("@color/primary"), ColorRef::Named(s) if s == "primary"));
    assert!(matches!(color_ref("@android:color/white"), ColorRef::Named(s) if s == "white"));
    assert!(matches!(color_ref("?attr/colorAccent"), ColorRef::Unresolved));
    assert_eq!(drawable_name("@mipmap/ic_launcher").as_deref(), Some("ic_launcher"));
    assert_eq!(drawable_name("@drawable/bg"), Some("bg".to_string()));
    assert_eq!(drawable_name("bg"), None);
}

#[test]
fn font_names() {
    assert_eq!(clean_font_family("@font/poppins_semibold"), "poppins");
    assert_eq!(clean_font_family("sans-serif-medium"), "sans-serif");
    assert_eq!(clean_font_family("res/font/inter_extra_bold"), "inter_extra");
    assert_eq!(clean_font_family("monospace"), "monospace");
    assert_eq!(extract_weight("Roboto-Black"), "black");
    assert_eq!(extract_weight("poppins_semibold"), "semibold");
    assert_eq!(extract_weight("@font/poppins_semibold"), "semibold");
    assert_eq!(extract_weight("Poppins_Semi_Bold"), "semibold");
    assert_eq!(extract_weight("poppins_bold"), "bold");
    assert_eq!(extract_weight("Inter-600"), "semibold");
    assert_eq!(extract_weight("sans-serif-light"), "light");
    assert_eq!(extract_weight("serif"), "regular");
}

#[test]
fn layout_attributes() {
    assert_eq!(layout_key("android:textColor"), "textColor");
    assert_eq!(layout_key("app:srcCompat"), "srcCompat");
    assert_eq!(layout_key("tools:ignore"), "tools:ignore");
    assert_eq!(view_id("@+id/title"), "title");
    assert_eq!(view_id("@id/title"), "title");
    assert!(layout_attr("paddingHorizontal") == LayoutAttr::PaddingStart);
    assert!(layout_attr("backgroundTint") == LayoutAttr::Background);
    assert!(layout_attr("layout_width") == LayoutAttr::Other);
    assert_eq!(padding_of(Some(8), Some(4), None, None, None), Some([4, 8, 8, 8]));
    assert_eq!(padding_of(None, None, Some(3), Some(1), Some(2)), Some([0, 2, 3, 1]));
    assert_eq!(padding_of(None, None, Some(3), None, Some(2)), None);
}

#[test]
fn vector_drawable_paths() {
    let xml = r##"<vector xmlns:android="http://schemas.android.com/apk/res/android"><path android:pathData="M0,0L1,1"/><group><path android:fillColor="#fff" pathData="M2,2"/></group><path android:pathData=""/></vector>"##;
    assert_eq!(extract_vector_paths(xml), Some(vec!["M0,0L1,1".to_string(), "M2,2".to_string()]));
    assert_eq!(extract_vector_paths("<vector></vector>"), None);
    assert_eq!(extract_vector_paths(r#"<shape><path android:pathData="M0,0"/></shape>"#), None);
}

#[test]
fn layout_views_keep_last_attribute_per_property() {
    let xml = r##"<LinearLayout xmlns:android="http://schemas.android.com/apk/res/android">
  <TextView android:id="@+id/title" android:textColor="@color/primary" android:textSize="14sp"
      android:paddingHorizontal="8dp" app:backgroundTint="#FFF" />
  <View android:layout_width="match_parent" />
  <ImageView android:id="@id/icon" app:srcCompat="@drawable/ic_star" android:padding="4dp"/>
  <View android:id="@+id/" />
</LinearLayout>"##;
    let vs = layout_views(xml);
    assert_eq!(vs.len(), 2);
    assert_eq!(vs[0].id, "title");
    assert_eq!(vs[0].text_color.as_deref(), Some("@color/primary"));
    assert_eq!(vs[0].text_size.as_deref(), Some("14sp"));
    assert_eq!(vs[0].padding_start.as_deref(), Some("8dp"));
    assert_eq!(vs[0].background.as_deref(), Some("#FFF"));
    assert_eq!(vs[0].padding, None);
    assert_eq!(vs[1].id, "icon");
    assert_eq!(vs[1].src.as_deref(), Some("@drawable/ic_star"));
    assert_eq!(vs[1].padding.as_deref(), Some("4dp"));
    assert_eq!(vs[1].text_color, None);
}

#[test]
fn colours_of_a_values_file() {
    let xml = r##"<?xml version="1.0" encoding="utf-8"?>
<resources>
    <color name="primary"> #abc </color>
    <color name="accent">#FF1a2b3c</color>
    <color name="ref">@color/primary</color>
    <color>#123</color>
    <color name="amp">&#35;fff</color>
    <dimen name="gap">#4</dimen>
</resources>"##;
    let c = parse_color_xml(xml).unwrap();
    assert_eq!(
        c,
        vec![
            ("primary".to_string(), "#aabbcc".to_string()),
            ("accent".to_string(), "#FF1a2b3c".to_string()),
            ("amp".to_string(), "#ffffff".to_string()),
        ]
    );
    assert_eq!(parse_color_xml("<resources><color name=\"x\">#\u{e9}1</color></resources>"), None);
}
