use lightmount_style::device::{
    font_style_changes, Device, FontPropertyDifferences, FontStyleChanges, RootFontBases,
    RootFontMetrics, RootFontRelativeStateChanges, RootFontState,
};

fn metrics(size: f32) -> RootFontMetrics {
    RootFontMetrics {
        ex: (size / 2.0).to_bits(),
        ch: (size / 2.0).to_bits(),
        cap: size.to_bits(),
        ic: size.to_bits(),
    }
}

fn device(root_style: &'static str) -> Device<&'static str, ()> {
    Device {
        default_values: "initial",
        root_style,
        root_font: RootFontState {
            font_size: 16.0_f32.to_bits(),
            line_height: 19.0_f32.to_bits(),
            metrics: metrics(0.0),
            used_font_size: false,
            used_line_height: false,
            used_font_metrics: false,
        },
        used_font_metrics: false,
        used_viewport_size: false,
        used_dynamic_viewport_size: false,
        environment: (),
        body_text_color: 0,
    }
}

fn same_fonts() -> FontPropertyDifferences {
    FontPropertyDifferences {
        font_size: false,
        line_height: false,
        font_family: false,
        font_style: false,
        font_weight: false,
        font_stretch: false,
    }
}

fn bases(size: f32) -> RootFontBases {
    RootFontBases {
        font_size: size.to_bits(),
        line_height: (size + 4.0).to_bits(),
        metrics: metrics(size),
    }
}

#[test]
fn font_changes_follow_the_properties_that_differ() {
    let unchanged = FontStyleChanges { font_size: false, line_height: false };
    let all = FontStyleChanges { font_size: true, line_height: true };
    let line_height = FontStyleChanges { font_size: false, line_height: true };

    assert_eq!(font_style_changes(None, false), all);
    assert_eq!(font_style_changes(Some(same_fonts()), true), unchanged);
    assert_eq!(
        font_style_changes(
            Some(FontPropertyDifferences { font_size: true, ..same_fonts() }),
            false
        ),
        all
    );
    assert_eq!(
        font_style_changes(
            Some(FontPropertyDifferences { line_height: true, ..same_fonts() }),
            false
        ),
        line_height
    );
    for differences in [
        FontPropertyDifferences { font_family: true, ..same_fonts() },
        FontPropertyDifferences { font_style: true, ..same_fonts() },
        FontPropertyDifferences { font_weight: true, ..same_fonts() },
        FontPropertyDifferences { font_stretch: true, ..same_fonts() },
    ] {
        assert_eq!(font_style_changes(Some(differences), true), line_height);
        assert_eq!(font_style_changes(Some(differences), false), unchanged);
    }
}

#[test]
fn the_first_root_style_publishes_every_basis() {
    let mut device = device("old");
    let changes = device.update_root_font_relative_state(None, true, "new", bases(20.0));

    assert!(changes.font_size_changed());
    assert!(changes.line_height_changed());
    assert!(!changes.font_metrics_changed());
    assert!(changes.any());
    assert_eq!(device.root_style, "new");
    assert_eq!(f32::from_bits(device.root_font_size()), 20.0);
    assert_eq!(f32::from_bits(device.root_line_height()), 24.0);
    assert!(device.used_root_font_size());
    assert!(device.used_root_line_height());
    assert!(!device.used_root_font_metrics());
    assert_eq!(device.root_font.metrics, metrics(0.0));
}

#[test]
fn unchanged_properties_keep_their_bases() {
    let mut device = device("old");
    let changes =
        device.update_root_font_relative_state(Some(same_fonts()), true, "new", bases(20.0));

    assert_eq!(changes, RootFontRelativeStateChanges::default());
    assert!(!changes.any());
    assert_eq!(device.root_style, "new");
    assert_eq!(f32::from_bits(device.root_font_size()), 16.0);
    assert_eq!(f32::from_bits(device.root_line_height()), 19.0);
}

#[test]
fn metrics_are_read_on_first_use_only() {
    let mut device = device("root");

    assert_eq!(f32::from_bits(device.root_font_metrics_ex(metrics(10.0))), 5.0);
    assert!(device.used_root_font_metrics());
    assert_eq!(f32::from_bits(device.root_font_metrics_cap(metrics(30.0))), 10.0);
    assert_eq!(f32::from_bits(device.root_font_metrics_ch(metrics(30.0))), 5.0);
    assert_eq!(f32::from_bits(device.root_font_metrics_ic(metrics(30.0))), 10.0);
}

#[test]
fn metrics_in_use_are_refreshed_with_every_root_style() {
    let mut device = device("root");
    device.ensure_root_font_metrics_updated(metrics(10.0));

    let changes =
        device.update_root_font_relative_state(Some(same_fonts()), true, "next", bases(20.0));
    assert!(changes.font_metrics_changed());
    assert!(!changes.font_size_changed());
    assert_eq!(device.root_font.metrics, metrics(20.0));

    let again =
        device.update_root_font_relative_state(Some(same_fonts()), true, "next", bases(20.0));
    assert!(!again.any());
    assert!(device.used_root_font_metrics());
}

#[test]
fn setting_a_metric_reports_whether_it_changed() {
    let mut device = device("root");

    assert!(device.set_root_font_metrics_ex(1));
    assert!(!device.set_root_font_metrics_ex(1));
    assert!(device.set_root_font_metrics_cap(2));
    assert!(!device.set_root_font_metrics_cap(2));
    assert!(device.set_root_font_metrics_ch(3));
    assert!(!device.set_root_font_metrics_ch(3));
    assert!(device.set_root_font_metrics_ic(4));
    assert!(!device.set_root_font_metrics_ic(4));
    let stored = RootFontMetrics { ex: 1, ch: 3, cap: 2, ic: 4 };
    assert_eq!(device.root_font.metrics, stored);
    assert!(!device.update_root_font_metrics(stored));
    assert!(device.update_root_font_metrics(RootFontMetrics { ic: 5, ..stored }));
}

#[test]
fn a_replacement_device_inherits_the_root_font_state() {
    let mut previous = device("root");
    previous.root_font_size();
    previous.set_root_line_height(21.0_f32.to_bits());
    let mut replacement = device("other");
    let changes =
        replacement.inherit_root_font_relative_state_from(&previous, metrics(20.0));

    assert_eq!(changes, RootFontRelativeStateChanges::default());
    assert_eq!(replacement.root_style, "root");
    assert_eq!(replacement.root_font, previous.root_font);
    assert!(replacement.used_root_font_size());
    assert!(!replacement.used_root_line_height());

    previous.ensure_root_font_metrics_updated(metrics(10.0));
    let changes =
        replacement.inherit_root_font_relative_state_from(&previous, metrics(20.0));
    assert!(changes.font_metrics_changed());
    assert!(!changes.font_size_changed());
    assert_eq!(replacement.root_font.metrics, metrics(20.0));
    assert!(replacement.used_root_font_metrics());

    let changes =
        replacement.inherit_root_font_relative_state_from(&previous, metrics(10.0));
    assert!(!changes.any());
}

#[test]
fn the_rest_of_a_device_is_kept_as_given() {
    let mut device = device("root");
    device.set_body_text_color(0xff00ff00);
    device.set_root_style("next");
    device.set_root_font_size(12.0_f32.to_bits());

    assert_eq!(device.body_text_color(), 0xff00ff00);
    assert_eq!(device.root_style, "next");
    assert_eq!(*device.default_computed_values(), "initial");
    assert_eq!(*device.default_computed_values_arc(), "initial");
    assert_eq!(f32::from_bits(device.root_font.font_size), 12.0);
    assert!(!device.used_root_font_size());
    assert!(!device.used_viewport_size());
    assert!(!device.used_dynamic_viewport_size());
    assert!(!device.used_font_metrics());
}
