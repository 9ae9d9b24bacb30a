//! The device that styles are computed for, as far as units relative to the
//! root font go.
//!
//! Lengths are kept as the bit patterns of 32-bit floating-point numbers in
//! zoom-independent CSS pixels.

use vstd::prelude::*;

verus! {

/// Changes to the document root's font-relative unit bases after publishing a
/// new root style or transferring the state to a replacement [`Device`].
#[derive(Clone, Copy, Debug, PartialEq, Eq, Structural)]
#[must_use]
pub struct RootFontRelativeStateChanges {
    /// The basis used by `rem` changed.
    pub font_size: bool,
    /// The basis used by `rlh` changed.
    pub line_height: bool,
    /// A basis used by `rex`, `rch`, `rcap`, or `ric` changed.
    pub font_metrics: bool,
}

impl Default for RootFontRelativeStateChanges {
    fn default() -> (changes: Self)
        ensures
            changes == (RootFontRelativeStateChanges {
                font_size: false,
                line_height: false,
                font_metrics: false,
            }),
    {
        Self { font_size: false, line_height: false, font_metrics: false }
    }
}

impl RootFontRelativeStateChanges {
    /// Whether the basis used by `rem` changed.
    pub fn font_size_changed(self) -> (changed: bool)
        ensures
            changed == self.font_size,
    {
        self.font_size
    }

    /// Whether the basis used by `rlh` changed.
    pub fn line_height_changed(self) -> (changed: bool)
        ensures
            changed == self.line_height,
    {
        self.line_height
    }

    /// Whether a basis used by `rex`, `rch`, `rcap`, or `ric` changed.
    pub fn font_metrics_changed(self) -> (changed: bool)
        ensures
            changed == self.font_metrics,
    {
        self.font_metrics
    }

    /// Whether any root font-relative unit basis changed.
    pub fn any(self) -> (changed: bool)
        ensures
            changed == (self.font_size || self.line_height || self.font_metrics),
    {
        self.font_size || self.line_height || self.font_metrics
    }
}

/// Changes of the font properties of a style.
#[derive(Clone, Copy, Debug, PartialEq, Eq, Structural)]
pub struct FontStyleChanges {
    /// Whether the computed font-size changed.
    pub font_size: bool,
    /// Whether the used line-height may have changed.
    pub line_height: bool,
}

/// Which font properties differ between an old and a new style.
#[derive(Clone, Copy, Debug, PartialEq, Eq, Structural)]
pub struct FontPropertyDifferences {
    /// `font-size` differs.
    pub font_size: bool,
    /// `line-height` differs.
    pub line_height: bool,
    /// `font-family` differs.
    pub font_family: bool,
    /// `font-style` differs.
    pub font_style: bool,
    /// `font-weight` differs.
    pub font_weight: bool,
    /// `font-stretch` differs.
    pub font_stretch: bool,
}

/// The changes that differences amount to. Without an old style everything
/// changed. The line height changes with the font size, and a `normal` one also
/// with the properties that select the font.
pub open spec fn changes_of_differences(
    differences: Option<FontPropertyDifferences>,
    new_line_height_is_normal: bool,
) -> FontStyleChanges {
    match differences {
        None => FontStyleChanges { font_size: true, line_height: true },
        Some(differences) => FontStyleChanges {
            font_size: differences.font_size,
            line_height: differences.font_size || differences.line_height || (
            new_line_height_is_normal && (differences.font_family || differences.font_style
                || differences.font_weight || differences.font_stretch)),
        },
    }
}

/// Compare the font properties that determine inherited and root-relative
/// font bases without eagerly resolving a potentially metric-backed `normal`
/// line-height. There are no differences without an old style.
pub fn font_style_changes(
    differences: Option<FontPropertyDifferences>,
    new_line_height_is_normal: bool,
) -> (changes: FontStyleChanges)
    ensures
        changes == changes_of_differences(differences, new_line_height_is_normal),
{
    match differences {
        None => FontStyleChanges { font_size: true, line_height: true },
        Some(differences) => {
            let font_size = differences.font_size;
            let line_height = font_size || differences.line_height || (new_line_height_is_normal
                && (differences.font_family || differences.font_style || differences.font_weight
                || differences.font_stretch));
            FontStyleChanges { font_size, line_height }
        },
    }
}

/// The metrics of the root font that units depend on.
#[derive(Clone, Copy, Debug, PartialEq, Eq, Structural)]
pub struct RootFontMetrics {
    /// X-height, for `rex`.
    pub ex: u32,
    /// Advance measure, for `rch`.
    pub ch: u32,
    /// Cap-height, for `rcap`.
    pub cap: u32,
    /// Ideographic advance measure, for `ric`.
    pub ic: u32,
}

/// What a root style gives for units relative to the root font.
#[derive(Clone, Copy, Debug, PartialEq, Eq, Structural)]
pub struct RootFontBases {
    /// The computed font size. It is read where the font size changed.
    pub font_size: u32,
    /// The used line height. It is read where the line height changed.
    pub line_height: u32,
    /// What the font provider reports for the style. It is read where metrics
    /// are in use.
    pub metrics: RootFontMetrics,
}

/// The part of a device that belongs to the document root's font.
#[derive(Clone, Copy, Debug, PartialEq, Eq, Structural)]
pub struct RootFontState {
    /// Font size of the root element, used for rem units in other elements.
    pub font_size: u32,
    /// Line height of the root element, used for rlh units in other elements.
    pub line_height: u32,
    /// Metrics of the root element's font, used for rex, rch, rcap and ric
    /// units in other elements.
    pub metrics: RootFontMetrics,
    /// Whether any styles computed in the document relied on the root font-size
    /// by using rem units.
    pub used_font_size: bool,
    /// Whether any styles computed in the document relied on the root
    /// line-height by using rlh units.
    pub used_line_height: bool,
    /// Whether any styles computed in the document relied on the root font
    /// metrics by using rcap, rch, rex, or ric units.
    pub used_font_metrics: bool,
}

impl RootFontState {
    /// This state with its metrics in use: they become those given unless they
    /// were in use before.
    pub open spec fn using_metrics(self, metrics: RootFontMetrics) -> Self {
        RootFontState {
            metrics: if self.used_font_metrics {
                self.metrics
            } else {
                metrics
            },
            used_font_metrics: true,
            ..self
        }
    }

    /// This state with its metrics refreshed where they are in use.
    pub open spec fn refreshed(self, metrics: RootFontMetrics) -> Self {
        RootFontState {
            metrics: if self.used_font_metrics {
                metrics
            } else {
                self.metrics
            },
            ..self
        }
    }
}

/// A device is a structure that represents the current media a given document
/// is displayed in: its default values, the style of its root, the bases of
/// units relative to the root font, and which of those were looked up.
#[derive(Debug)]
pub struct Device<Style, Environment> {
    /// The default computed values for this Device.
    pub default_values: Style,
    /// Current computed style of the root element, used for calculations of
    /// root font-relative units.
    pub root_style: Style,
    /// The state of the root font.
    pub root_font: RootFontState,
    /// Whether any styles computed in the document relied on font metrics.
    pub used_font_metrics: bool,
    /// Whether any styles computed in the document relied on the viewport size
    /// by using vw/vh/vmin/vmax units.
    pub used_viewport_size: bool,
    /// Whether any styles computed in the document relied on the viewport size
    /// by using dvw/dvh/dvmin/dvmax units.
    pub used_dynamic_viewport_size: bool,
    /// The environment that resolves `env()` functions.
    pub environment: Environment,
    /// The body text color, used for the "tables inherit from body" quirk.
    pub body_text_color: u32,
}

impl<Style, Environment> Device<Style, Environment> {
    /// Get the relevant environment to resolve `env()` functions.
    pub fn environment(&self) -> (environment: &Environment)
        ensures
            *environment == self.environment,
    {
        &self.environment
    }

    /// Returns the default computed values.
    pub fn default_computed_values(&self) -> (values: &Style)
        ensures
            *values == self.default_values,
    {
        &self.default_values
    }

    /// Returns the default computed values, to be shared.
    pub fn default_computed_values_arc(&self) -> (values: &Style)
        ensures
            *values == self.default_values,
    {
        &self.default_values
    }

    /// Store the root element's computed style, for use in calculation of root
    /// font-relative metrics.
    pub fn set_root_style(&mut self, style: Style)
        ensures
            *final(self) == (Device { root_style: style, ..*old(self) }),
    {
        self.root_style = style;
    }

    /// Publish a newly computed document-root style and update every root
    /// font-relative unit basis owned by this device.
    ///
    /// This is called at the same commit boundary where the root's computed
    /// values are published, before any descendants are resolved.
    pub fn update_root_font_relative_state(
        &mut self,
        differences: Option<FontPropertyDifferences>,
        new_line_height_is_normal: bool,
        new_style: Style,
        bases: RootFontBases,
    ) -> (changes: RootFontRelativeStateChanges)
        ensures
            ({
                let style_changes = changes_of_differences(differences, new_line_height_is_normal);
                &&& changes == changes_after(old(self).root_font, style_changes, bases)
                &&& changes.font_metrics == (old(self).root_font.used_font_metrics && old(
                    self,
                ).root_font.metrics != final(self).root_font.metrics)
                &&& *final(self) == (Device {
                    root_style: new_style,
                    root_font: state_after(old(self).root_font, style_changes, bases),
                    ..*old(self)
                })
            }),
    {
        self.update_root_font_relative_state_with_changes(
            new_style,
            font_style_changes(differences, new_line_height_is_normal),
            bases,
        )
    }

    /// Publish a root style using font-property changes already computed.
    pub fn update_root_font_relative_state_with_changes(
        &mut self,
        new_style: Style,
        changes: FontStyleChanges,
        bases: RootFontBases,
    ) -> (result: RootFontRelativeStateChanges)
        ensures
            result == changes_after(old(self).root_font, changes, bases),
            result.font_metrics == (old(self).root_font.used_font_metrics && old(
                self,
            ).root_font.metrics != final(self).root_font.metrics),
            *final(self) == (Device {
                root_style: new_style,
                root_font: state_after(old(self).root_font, changes, bases),
                ..*old(self)
            }),
    {
        self.set_root_style(new_style);
        if changes.font_size {
            self.set_root_font_size(bases.font_size);
        }
        if changes.line_height {
            self.set_root_line_height(bases.line_height);
        }
        // Font availability can change without changing computed values. An
        // already-used basis is refreshed at every root-style commit so that
        // callers can invalidate affected styles.
        let font_metrics = self.used_root_font_metrics() && self.update_root_font_metrics(
            bases.metrics,
        );
        RootFontRelativeStateChanges {
            font_size: changes.font_size,
            line_height: changes.line_height,
            font_metrics,
        }
    }

    /// Transfer the current document-root font state from the device being
    /// replaced.
    ///
    /// Root style and numeric bases belong to the document, not to a viewport
    /// snapshot. Usage flags are preserved so later root changes retain their
    /// invalidation semantics. Previously-used glyph metrics are copied first
    /// and then recomputed with the replacement device's font provider.
    ///
    /// `metrics` is what the font provider reports for the previous device's
    /// root style.
    pub fn inherit_root_font_relative_state_from(
        &mut self,
        previous: &Device<Style, Environment>,
        metrics: RootFontMetrics,
    ) -> (changes: RootFontRelativeStateChanges) where Style: Clone
        ensures
            cloned(previous.root_style, final(self).root_style),
            changes == (RootFontRelativeStateChanges {
                font_size: false,
                line_height: false,
                font_metrics: previous.root_font.used_font_metrics && previous.root_font.metrics
                    != metrics,
            }),
            *final(self) == (Device {
                root_style: final(self).root_style,
                root_font: previous.root_font.refreshed(metrics),
                ..*old(self)
            }),
    {
        let root_style = previous.root_style.clone();
        self.set_root_style(root_style);
        self.root_font = previous.root_font;
        let used_root_font_metrics = self.root_font.used_font_metrics;
        RootFontRelativeStateChanges {
            font_size: false,
            line_height: false,
            font_metrics: used_root_font_metrics && self.update_root_font_metrics(metrics),
        }
    }

    /// Get the font size of the root element (for rem)
    pub fn root_font_size(&mut self) -> (size: u32)
        ensures
            size == old(self).root_font.font_size,
            *final(self) == (Device {
                root_font: RootFontState { used_font_size: true, ..old(self).root_font },
                ..*old(self)
            }),
    {
        self.root_font.used_font_size = true;
        self.root_font.font_size
    }

    /// Set the font size of the root element (for rem), in zoom-independent CSS pixels.
    pub fn set_root_font_size(&mut self, size: u32)
        ensures
            *final(self) == (Device {
                root_font: RootFontState { font_size: size, ..old(self).root_font },
                ..*old(self)
            }),
    {
        self.root_font.font_size = size;
    }

    /// Get the line height of the root element (for rlh)
    pub fn root_line_height(&mut self) -> (size: u32)
        ensures
            size == old(self).root_font.line_height,
            *final(self) == (Device {
                root_font: RootFontState { used_line_height: true, ..old(self).root_font },
                ..*old(self)
            }),
    {
        self.root_font.used_line_height = true;
        self.root_font.line_height
    }

    /// Set the line height of the root element (for rlh), in zoom-independent CSS pixels.
    pub fn set_root_line_height(&mut self, size: u32)
        ensures
            *final(self) == (Device {
                root_font: RootFontState { line_height: size, ..old(self).root_font },
                ..*old(self)
            }),
    {
        self.root_font.line_height = size;
    }

    /// Get the x-height of the root element (for rex), where the font provider
    /// reports `metrics` for the root style. They are read on first use.
    pub fn root_font_metrics_ex(&mut self, metrics: RootFontMetrics) -> (size: u32)
        ensures
            *final(self) == (Device {
                root_font: old(self).root_font.using_metrics(metrics),
                ..*old(self)
            }),
            size == final(self).root_font.metrics.ex,
    {
        self.ensure_root_font_metrics_updated(metrics);
        self.root_font.metrics.ex
    }

    /// Set the x-height of the root element (for rex), and return whether it
    /// changed.
    pub fn set_root_font_metrics_ex(&mut self, size: u32) -> (changed: bool)
        ensures
            changed == (old(self).root_font.metrics.ex != size),
            *final(self) == (Device {
                root_font: RootFontState {
                    metrics: RootFontMetrics { ex: size, ..old(self).root_font.metrics },
                    ..old(self).root_font
                },
                ..*old(self)
            }),
    {
        let previous: u32 = self.root_font.metrics.ex;
        self.root_font.metrics.ex = size;
        previous != size
    }

    /// Get the cap-height of the root element (for rcap), where the font
    /// provider reports `metrics` for the root style. They are read on first
    /// use.
    pub fn root_font_metrics_cap(&mut self, metrics: RootFontMetrics) -> (size: u32)
        ensures
            *final(self) == (Device {
                root_font: old(self).root_font.using_metrics(metrics),
                ..*old(self)
            }),
            size == final(self).root_font.metrics.cap,
    {
        self.ensure_root_font_metrics_updated(metrics);
        self.root_font.metrics.cap
    }

    /// Set the cap-height of the root element (for rcap), and return whether it
    /// changed.
    pub fn set_root_font_metrics_cap(&mut self, size: u32) -> (changed: bool)
        ensures
            changed == (old(self).root_font.metrics.cap != size),
            *final(self) == (Device {
                root_font: RootFontState {
                    metrics: RootFontMetrics { cap: size, ..old(self).root_font.metrics },
                    ..old(self).root_font
                },
                ..*old(self)
            }),
    {
        let previous: u32 = self.root_font.metrics.cap;
        self.root_font.metrics.cap = size;
        previous != size
    }

    /// Get the advance measure of the root element (for rch), where the font
    /// provider reports `metrics` for the root style. They are read on first
    /// use.
    pub fn root_font_metrics_ch(&mut self, metrics: RootFontMetrics) -> (size: u32)
        ensures
            *final(self) == (Device {
                root_font: old(self).root_font.using_metrics(metrics),
                ..*old(self)
            }),
            size == final(self).root_font.metrics.ch,
    {
        self.ensure_root_font_metrics_updated(metrics);
        self.root_font.metrics.ch
    }

    /// Set the advance measure of the root element (for rch), and return
    /// whether it changed.
    pub fn set_root_font_metrics_ch(&mut self, size: u32) -> (changed: bool)
        ensures
            changed == (old(self).root_font.metrics.ch != size),
            *final(self) == (Device {
                root_font: RootFontState {
                    metrics: RootFontMetrics { ch: size, ..old(self).root_font.metrics },
                    ..old(self).root_font
                },
                ..*old(self)
            }),
    {
        let previous: u32 = self.root_font.metrics.ch;
        self.root_font.metrics.ch = size;
        previous != size
    }

    /// Get the ideographic advance measure of the root element (for ric), where
    /// the font provider reports `metrics` for the root style. They are read on
    /// first use.
    pub fn root_font_metrics_ic(&mut self, metrics: RootFontMetrics) -> (size: u32)
        ensures
            *final(self) == (Device {
                root_font: old(self).root_font.using_metrics(metrics),
                ..*old(self)
            }),
            size == final(self).root_font.metrics.ic,
    {
        self.ensure_root_font_metrics_updated(metrics);
        self.root_font.metrics.ic
    }

    /// Set the ideographic advance measure of the root element (for ric), and
    /// return whether it changed.
    pub fn set_root_font_metrics_ic(&mut self, size: u32) -> (changed: bool)
        ensures
            changed == (old(self).root_font.metrics.ic != size),
            *final(self) == (Device {
                root_font: RootFontState {
                    metrics: RootFontMetrics { ic: size, ..old(self).root_font.metrics },
                    ..old(self).root_font
                },
                ..*old(self)
            }),
    {
        let previous: u32 = self.root_font.metrics.ic;
        self.root_font.metrics.ic = size;
        previous != size
    }

    /// Mark the root font metrics as used, and update them on first use.
    pub fn ensure_root_font_metrics_updated(&mut self, metrics: RootFontMetrics)
        ensures
            *final(self) == (Device {
                root_font: old(self).root_font.using_metrics(metrics),
                ..*old(self)
            }),
    {
        let previously_computed = self.root_font.used_font_metrics;
        self.root_font.used_font_metrics = true;
        if !previously_computed {
            self.update_root_font_metrics(metrics);
        }
    }

    /// Store the root element's font metrics, and return whether they have
    /// changed since the previous restyle.
    pub fn update_root_font_metrics(&mut self, metrics: RootFontMetrics) -> (changed: bool)
        ensures
            changed == (old(self).root_font.metrics != metrics),
            *final(self) == (Device {
                root_font: RootFontState { metrics, ..old(self).root_font },
                ..*old(self)
            }),
    {
        let ex = self.set_root_font_metrics_ex(metrics.ex);
        let ch = self.set_root_font_metrics_ch(metrics.ch);
        let cap = self.set_root_font_metrics_cap(metrics.cap);
        let ic = self.set_root_font_metrics_ic(metrics.ic);
        ex || ch || cap || ic
    }

    /// Returns whether we ever looked up the root font size of the Device.
    pub fn used_root_font_size(&self) -> (used: bool)
        ensures
            used == self.root_font.used_font_size,
    {
        self.root_font.used_font_size
    }

    /// Returns whether we ever looked up the root line-height of the device.
    pub fn used_root_line_height(&self) -> (used: bool)
        ensures
            used == self.root_font.used_line_height,
    {
        self.root_font.used_line_height
    }

    /// Returns whether we ever looked up the root font metrics of the device.
    pub fn used_root_font_metrics(&self) -> (used: bool)
        ensures
            used == self.root_font.used_font_metrics,
    {
        self.root_font.used_font_metrics
    }

    /// Returns whether we ever looked up the viewport size of the Device.
    pub fn used_viewport_size(&self) -> (used: bool)
        ensures
            used == self.used_viewport_size,
    {
        self.used_viewport_size
    }

    /// Returns whether we ever looked up the dynamic viewport size of the Device.
    pub fn used_dynamic_viewport_size(&self) -> (used: bool)
        ensures
            used == self.used_dynamic_viewport_size,
    {
        self.used_dynamic_viewport_size
    }

    /// Returns whether font metrics have been queried.
    pub fn used_font_metrics(&self) -> (used: bool)
        ensures
            used == self.used_font_metrics,
    {
        self.used_font_metrics
    }

    /// Returns the body text color.
    pub fn body_text_color(&self) -> (color: u32)
        ensures
            color == self.body_text_color,
    {
        self.body_text_color
    }

    /// Sets the body text color for the "inherit color from body" quirk.
    ///
    /// <https://quirks.spec.whatwg.org/#the-tables-inherit-color-from-body-quirk>
    pub fn set_body_text_color(&mut self, color: u32)
        ensures
            *final(self) == (Device { body_text_color: color, ..*old(self) }),
    {
        self.body_text_color = color;
    }
}

/// The state of the root font after a root style with these changes and bases
/// was published.
pub open spec fn state_after(
    state: RootFontState,
    changes: FontStyleChanges,
    bases: RootFontBases,
) -> RootFontState {
    RootFontState {
        font_size: if changes.font_size {
            bases.font_size
        } else {
            state.font_size
        },
        line_height: if changes.line_height {
            bases.line_height
        } else {
            state.line_height
        },
        ..state
    }.refreshed(bases.metrics)
}

/// What is reported as changed by publishing a root style: the font size and
/// line height as they were compared, and metrics that are in use and differ.
pub open spec fn changes_after(
    state: RootFontState,
    changes: FontStyleChanges,
    bases: RootFontBases,
) -> RootFontRelativeStateChanges {
    RootFontRelativeStateChanges {
        font_size: changes.font_size,
        line_height: changes.line_height,
        font_metrics: state.used_font_metrics && state.metrics != bases.metrics,
    }
}

/// Publishing a root style never forgets what was used, and publishing the same
/// metrics again reports no change of metrics.
pub proof fn lemma_publishing_keeps_usage(
    state: RootFontState,
    changes: FontStyleChanges,
    bases: RootFontBases,
    again: FontStyleChanges,
)
    ensures
        ({
            let after = state_after(state, changes, bases);
            &&& after.used_font_size == state.used_font_size
            &&& after.used_line_height == state.used_line_height
            &&& after.used_font_metrics == state.used_font_metrics
            &&& !changes_after(after, again, bases).font_metrics
        }),
{
}

/// What publishing a root style reports is what it does to the stored bases,
/// whatever else changes. Metrics are reported exactly where they were in use
/// and the stored ones differ afterwards. A changed font size or line height is
/// the new style's, an unchanged one stays, and each is reported by itself.
pub proof fn lemma_publishing_reports_what_it_stores(
    state: RootFontState,
    changes: FontStyleChanges,
    bases: RootFontBases,
)
    ensures
        ({
            let after = state_after(state, changes, bases);
            let reported = changes_after(state, changes, bases);
            &&& reported.font_metrics == (state.used_font_metrics && state.metrics
                != after.metrics)
            &&& reported.font_size == changes.font_size
            &&& reported.line_height == changes.line_height
            &&& changes.font_size ==> after.font_size == bases.font_size
            &&& !changes.font_size ==> after.font_size == state.font_size
            &&& changes.line_height ==> after.line_height == bases.line_height
            &&& !changes.line_height ==> after.line_height == state.line_height
            &&& state.used_font_metrics ==> after.metrics.ex == bases.metrics.ex
                && after.metrics.ch == bases.metrics.ch && after.metrics.cap == bases.metrics.cap
                && after.metrics.ic == bases.metrics.ic
            &&& !state.used_font_metrics ==> after.metrics == state.metrics
        }),
{
}

/// Whether any property that selects the font differs.
pub open spec fn font_differs(differences: FontPropertyDifferences) -> bool {
    !(!differences.font_family && !differences.font_style && !differences.font_weight
        && !differences.font_stretch)
}

/// Without an old style everything changed. With one, the font size changed
/// exactly where it differs, and the line height where it or the font size
/// differs, or where it is `normal` and another font is selected.
pub proof fn lemma_changes_follow_differences(
    differences: Option<FontPropertyDifferences>,
    normal: bool,
)
    ensures
        ({
            let changes = changes_of_differences(differences, normal);
            &&& differences is None ==> changes.font_size && changes.line_height
            &&& changes.font_size ==> changes.line_height
            &&& differences matches Some(differ) ==> {
                &&& changes.font_size <==> differ.font_size
                &&& !changes.line_height <==> !differ.font_size && !differ.line_height && !(normal
                    && font_differs(differ))
            }
        }),
{
}

/// A device that inherits the state of another keeps its bases and what was
/// used; only metrics in use are replaced, by those of its own fonts.
pub proof fn lemma_inheriting_keeps_usage(previous: RootFontState, metrics: RootFontMetrics)
    ensures
        ({
            let inherited = previous.refreshed(metrics);
            &&& inherited.font_size == previous.font_size
            &&& inherited.line_height == previous.line_height
            &&& inherited.used_font_size == previous.used_font_size
            &&& inherited.used_line_height == previous.used_line_height
            &&& inherited.used_font_metrics == previous.used_font_metrics
            &&& !previous.used_font_metrics ==> inherited == previous
            &&& previous.used_font_metrics ==> inherited.metrics == metrics
        }),
{
}

/// Metrics are looked up once: a second use returns what the first returned,
/// whatever the font provider reports by then. Nothing else changes.
pub proof fn lemma_metrics_are_read_once(
    state: RootFontState,
    first: RootFontMetrics,
    second: RootFontMetrics,
)
    ensures
        state.using_metrics(first).using_metrics(second) == state.using_metrics(first),
        !state.used_font_metrics ==> state.using_metrics(first).metrics == first,
        state.used_font_metrics ==> state.using_metrics(first) == state,
        state.using_metrics(first).used_font_metrics,
        state.using_metrics(first).font_size == state.font_size,
        state.using_metrics(first).line_height == state.line_height,
        state.using_metrics(first).used_font_size == state.used_font_size,
        state.using_metrics(first).used_line_height == state.used_line_height,
{
}

} // verus!
