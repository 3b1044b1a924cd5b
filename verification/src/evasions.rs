//! Browser-fingerprint evasions: which techniques are enabled and the
//! JavaScript snippet of each, to be injected before any page loads.

use vstd::prelude::*;
use crate::text::{owned, push_str, push_decimal, decimal, chars_of, find_from, first_occurrence_from,
    string_of, lemma_first_occurrence, occurs_at, join_with};

verus! {

/// Individual browser-fingerprint evasion technique.
#[derive(Debug, Clone, Copy, PartialEq, Eq, Structural)]
pub enum Evasion {
    /// Delete `navigator.webdriver`.
    WebdriverHide,
    /// Add `window.chrome` with `runtime`, `loadTimes`, `csi`.
    ChromeRuntime,
    /// Spoof `navigator.plugins`.
    PluginArray,
    /// Spoof `navigator.mimeTypes`.
    MimeTypeArray,
    /// Ensure `navigator.language` matches `Accept-Language`.
    LanguageConsistency,
    /// Override `Permissions.prototype.query`.
    PermissionsQuery,
    /// Override WebGL vendor/renderer strings.
    WebglVendor,
    /// Add subtle noise to WebGL `readPixels` / `getParameter`.
    WebglNoise,
    /// Add invisible noise to canvas `toDataURL` / `toBlob`.
    CanvasNoise,
    /// Add noise to the `AudioContext` fingerprint.
    AudioContextNoise,
    /// Spoof `navigator.mediaDevices.enumerateDevices`.
    MediaDevices,
    /// Override `navigator.hardwareConcurrency`.
    HardwareConcurrency,
    /// Override `navigator.deviceMemory`.
    DeviceMemory,
    /// Override `screen.width` / `height` / `colorDepth`.
    ScreenResolution,
    /// Make `iframe.contentWindow` match the parent context.
    IframeContentWindow,
    /// Consistent UA across all access points.
    UserAgentOverride,
    /// Normalize font metrics.
    FontFingerprint,
    /// Remove Chrome DevTools protocol variables (`cdc_*`).
    CdcVariables,
    /// Prevent shadow DOM detection of automation.
    ShadowDomLeaks,
}

/// Every evasion, in declaration order.
pub open spec fn all_evasions() -> Seq<Evasion> {
    seq![
        Evasion::WebdriverHide, Evasion::ChromeRuntime, Evasion::PluginArray,
        Evasion::MimeTypeArray, Evasion::LanguageConsistency, Evasion::PermissionsQuery,
        Evasion::WebglVendor, Evasion::WebglNoise, Evasion::CanvasNoise,
        Evasion::AudioContextNoise, Evasion::MediaDevices, Evasion::HardwareConcurrency,
        Evasion::DeviceMemory, Evasion::ScreenResolution, Evasion::IframeContentWindow,
        Evasion::UserAgentOverride, Evasion::FontFingerprint, Evasion::CdcVariables,
        Evasion::ShadowDomLeaks,
    ]
}

/// The critical evasions enabled for quick stealth.
pub open spec fn minimal_evasions() -> Seq<Evasion> {
    seq![Evasion::WebdriverHide, Evasion::ChromeRuntime, Evasion::CdcVariables, Evasion::PluginArray]
}

impl Evasion {
    /// Every variant, in declaration order.
    pub fn all_variants() -> (r: Vec<Evasion>)
        ensures
            r@ == all_evasions(),
    {
        let r = vec![
            Evasion::WebdriverHide, Evasion::ChromeRuntime, Evasion::PluginArray,
            Evasion::MimeTypeArray, Evasion::LanguageConsistency, Evasion::PermissionsQuery,
            Evasion::WebglVendor, Evasion::WebglNoise, Evasion::CanvasNoise,
            Evasion::AudioContextNoise, Evasion::MediaDevices, Evasion::HardwareConcurrency,
            Evasion::DeviceMemory, Evasion::ScreenResolution, Evasion::IframeContentWindow,
            Evasion::UserAgentOverride, Evasion::FontFingerprint, Evasion::CdcVariables,
            Evasion::ShadowDomLeaks,
        ];
        assert(r@ =~= all_evasions());
        r
    }
}

/// The set of evasions included in the generated script.
#[derive(Debug, Clone)]
pub struct StealthEvasions {
    pub enabled_evasions: Vec<Evasion>,
}

impl StealthEvasions {
    /// Enable every evasion.
    pub fn all() -> (r: Self)
        ensures
            r.enabled_evasions@ == all_evasions(),
    {
        StealthEvasions { enabled_evasions: Evasion::all_variants() }
    }

    /// Enable only the four most critical evasions.
    pub fn minimal() -> (r: Self)
        ensures
            r.enabled_evasions@ == minimal_evasions(),
    {
        let v = vec![
            Evasion::WebdriverHide,
            Evasion::ChromeRuntime,
            Evasion::CdcVariables,
            Evasion::PluginArray,
        ];
        assert(v@ =~= minimal_evasions());
        StealthEvasions { enabled_evasions: v }
    }

    /// Number of enabled evasions.
    pub fn evasion_count(&self) -> (n: usize)
        ensures
            n == self.enabled_evasions@.len(),
    {
        self.enabled_evasions.len()
    }
}

/// Every evasion is enabled by `all()`, and `minimal()` enables four of them.
pub proof fn lemma_all_covers_every_variant(e: Evasion)
    ensures
        all_evasions().contains(e),
        minimal_evasions().len() == 4,
        forall|i: int| 0 <= i < minimal_evasions().len() ==> all_evasions().contains(#[trigger] minimal_evasions()[i]),
{
    let a = all_evasions();
    match e {
        Evasion::WebdriverHide => assert(a[0] == e),
        Evasion::ChromeRuntime => assert(a[1] == e),
        Evasion::PluginArray => assert(a[2] == e),
        Evasion::MimeTypeArray => assert(a[3] == e),
        Evasion::LanguageConsistency => assert(a[4] == e),
        Evasion::PermissionsQuery => assert(a[5] == e),
        Evasion::WebglVendor => assert(a[6] == e),
        Evasion::WebglNoise => assert(a[7] == e),
        Evasion::CanvasNoise => assert(a[8] == e),
        Evasion::AudioContextNoise => assert(a[9] == e),
        Evasion::MediaDevices => assert(a[10] == e),
        Evasion::HardwareConcurrency => assert(a[11] == e),
        Evasion::DeviceMemory => assert(a[12] == e),
        Evasion::ScreenResolution => assert(a[13] == e),
        Evasion::IframeContentWindow => assert(a[14] == e),
        Evasion::UserAgentOverride => assert(a[15] == e),
        Evasion::FontFingerprint => assert(a[16] == e),
        Evasion::CdcVariables => assert(a[17] == e),
        Evasion::ShadowDomLeaks => assert(a[18] == e),
    }
    assert forall|i: int| 0 <= i < minimal_evasions().len() implies all_evasions().contains(#[trigger] minimal_evasions()[i]) by {
        let m = minimal_evasions();
        if i == 0 { assert(a[0] == m[i]); }
        if i == 1 { assert(a[1] == m[i]); }
        if i == 2 { assert(a[17] == m[i]); }
        if i == 3 { assert(a[2] == m[i]); }
    }
}

// ---------------------------------------------------------------------------
// Script text
// ---------------------------------------------------------------------------

/// Script text: hides `navigator.webdriver`.
pub const WEBDRIVER_HIDE_JS: &'static str = r#"// [OpenClaw Stealth: webdriver_hide]
(function() {
    Object.defineProperty(navigator, 'webdriver', {
        get: () => undefined,
        configurable: true
    });
    // Also clean up the legacy property
    delete Object.getPrototypeOf(navigator).webdriver;
})();"#;

/// Hides `navigator.webdriver`.
pub fn js_webdriver_hide() -> (r: String)
    ensures
        r@ == WEBDRIVER_HIDE_JS@,
{
    owned(WEBDRIVER_HIDE_JS)
}

/// Script text: adds a convincing `window.chrome` with `runtime`, `loadTimes` and `csi`.
pub const CHROME_RUNTIME_JS: &'static str = r#"// [OpenClaw Stealth: chrome_runtime]
(function() {
    if (!window.chrome) {
        window.chrome = {};
    }
    if (!window.chrome.runtime) {
        window.chrome.runtime = {
            PlatformOs: { MAC: 'mac', WIN: 'win', ANDROID: 'android', CROS: 'cros', LINUX: 'linux', OPENBSD: 'openbsd' },
            PlatformArch: { ARM: 'arm', X86_32: 'x86-32', X86_64: 'x86-64', MIPS: 'mips', MIPS64: 'mips64' },
            PlatformNaclArch: { ARM: 'arm', X86_32: 'x86-32', X86_64: 'x86-64', MIPS: 'mips', MIPS64: 'mips64' },
            RequestUpdateCheckStatus: { THROTTLED: 'throttled', NO_UPDATE: 'no_update', UPDATE_AVAILABLE: 'update_available' },
            OnInstalledReason: { INSTALL: 'install', UPDATE: 'update', CHROME_UPDATE: 'chrome_update', SHARED_MODULE_UPDATE: 'shared_module_update' },
            OnRestartRequiredReason: { APP_UPDATE: 'app_update', OS_UPDATE: 'os_update', PERIODIC: 'periodic' },
            connect: function() { return { onDisconnect: { addListener: function() {} } }; },
            sendMessage: function() {}
        };
    }
    if (!window.chrome.loadTimes) {
        window.chrome.loadTimes = function() {
            return {
                requestTime: Date.now() / 1000 - Math.random() * 2,
                startLoadTime: Date.now() / 1000 - Math.random(),
                commitLoadTime: Date.now() / 1000 - Math.random() * 0.5,
                finishDocumentLoadTime: Date.now() / 1000,
                finishLoadTime: Date.now() / 1000,
                firstPaintTime: Date.now() / 1000 - Math.random() * 0.1,
                firstPaintAfterLoadTime: 0,
                navigationType: 'Other',
                wasFetchedViaSpdy: false,
                wasNpnNegotiated: true,
                npnNegotiatedProtocol: 'h2',
                wasAlternateProtocolAvailable: false,
                connectionInfo: 'h2'
            };
        };
    }
    if (!window.chrome.csi) {
        window.chrome.csi = function() {
            return {
                startE: Date.now(),
                onloadT: Date.now(),
                pageT: Math.random() * 1000 + 500,
                tran: 15
            };
        };
    }
})();"#;

/// Adds a convincing `window.chrome` with `runtime`, `loadTimes` and `csi`.
pub fn js_chrome_runtime() -> (r: String)
    ensures
        r@ == CHROME_RUNTIME_JS@,
{
    owned(CHROME_RUNTIME_JS)
}

/// Script text: spoofs `navigator.plugins` with realistic Chrome plugins.
pub const PLUGIN_ARRAY_JS: &'static str = r#"// [OpenClaw Stealth: plugin_array]
(function() {
    const pluginData = [
        { name: 'Chrome PDF Plugin', filename: 'internal-pdf-viewer', description: 'Portable Document Format',
          mimeTypes: [{ type: 'application/x-google-chrome-pdf', suffixes: 'pdf', description: 'Portable Document Format' }] },
        { name: 'Chrome PDF Viewer', filename: 'mhjfbmdgcfjbbpaeojofohoefgiehjai', description: '',
          mimeTypes: [{ type: 'application/pdf', suffixes: 'pdf', description: '' }] },
        { name: 'Native Client', filename: 'internal-nacl-plugin', description: '',
          mimeTypes: [
            { type: 'application/x-nacl', suffixes: '', description: 'Native Client Executable' },
            { type: 'application/x-pnacl', suffixes: '', description: 'Portable Native Client Executable' }
          ] }
    ];

    function makeMimeType(mt, plugin) {
        const obj = Object.create(MimeType.prototype);
        Object.defineProperties(obj, {
            type: { get: () => mt.type },
            suffixes: { get: () => mt.suffixes },
            description: { get: () => mt.description },
            enabledPlugin: { get: () => plugin }
        });
        return obj;
    }

    function makePlugin(pd) {
        const obj = Object.create(Plugin.prototype);
        const mimes = pd.mimeTypes.map(m => makeMimeType(m, obj));
        Object.defineProperties(obj, {
            name: { get: () => pd.name },
            filename: { get: () => pd.filename },
            description: { get: () => pd.description },
            length: { get: () => mimes.length }
        });
        mimes.forEach((m, i) => {
            Object.defineProperty(obj, i, { get: () => m });
            Object.defineProperty(obj, m.type, { get: () => m });
        });
        obj[Symbol.iterator] = function*() { for (const m of mimes) yield m; };
        return obj;
    }

    const plugins = pluginData.map(makePlugin);
    const pluginArray = Object.create(PluginArray.prototype);
    plugins.forEach((p, i) => {
        Object.defineProperty(pluginArray, i, { get: () => p });
        Object.defineProperty(pluginArray, p.name, { get: () => p });
    });
    Object.defineProperty(pluginArray, 'length', { get: () => plugins.length });
    pluginArray[Symbol.iterator] = function*() { for (const p of plugins) yield p; };
    pluginArray.refresh = function() {};
    pluginArray.item = function(i) { return plugins[i] || null; };
    pluginArray.namedItem = function(name) { return plugins.find(p => p.name === name) || null; };

    Object.defineProperty(navigator, 'plugins', {
        get: () => pluginArray,
        configurable: true
    });
})();"#;

/// Spoofs `navigator.plugins` with realistic Chrome plugins.
pub fn js_plugin_array() -> (r: String)
    ensures
        r@ == PLUGIN_ARRAY_JS@,
{
    owned(PLUGIN_ARRAY_JS)
}

/// Script text: spoofs `navigator.mimeTypes`.
pub const MIME_TYPE_ARRAY_JS: &'static str = r#"// [OpenClaw Stealth: mime_type_array]
(function() {
    const mimeData = [
        { type: 'application/pdf', suffixes: 'pdf', description: '' },
        { type: 'application/x-google-chrome-pdf', suffixes: 'pdf', description: 'Portable Document Format' },
        { type: 'application/x-nacl', suffixes: '', description: 'Native Client Executable' },
        { type: 'application/x-pnacl', suffixes: '', description: 'Portable Native Client Executable' }
    ];

    function makeMime(md) {
        const obj = Object.create(MimeType.prototype);
        Object.defineProperties(obj, {
            type: { get: () => md.type },
            suffixes: { get: () => md.suffixes },
            description: { get: () => md.description },
            enabledPlugin: { get: () => null }
        });
        return obj;
    }

    const mimes = mimeData.map(makeMime);
    const mimeArray = Object.create(MimeTypeArray.prototype);
    mimes.forEach((m, i) => {
        Object.defineProperty(mimeArray, i, { get: () => m });
        Object.defineProperty(mimeArray, m.type, { get: () => m });
    });
    Object.defineProperty(mimeArray, 'length', { get: () => mimes.length });
    mimeArray[Symbol.iterator] = function*() { for (const m of mimes) yield m; };
    mimeArray.item = function(i) { return mimes[i] || null; };
    mimeArray.namedItem = function(t) { return mimes.find(m => m.type === t) || null; };

    Object.defineProperty(navigator, 'mimeTypes', {
        get: () => mimeArray,
        configurable: true
    });
})();"#;

/// Spoofs `navigator.mimeTypes`.
pub fn js_mime_type_array() -> (r: String)
    ensures
        r@ == MIME_TYPE_ARRAY_JS@,
{
    owned(MIME_TYPE_ARRAY_JS)
}

/// Script text: overrides `Permissions.prototype.query` to return realistic results.
pub const PERMISSIONS_QUERY_JS: &'static str = r#"// [OpenClaw Stealth: permissions_query]
(function() {
    const originalQuery = window.Permissions && Permissions.prototype.query;
    if (!originalQuery) return;

    Permissions.prototype.query = function(parameters) {
        if (parameters && parameters.name === 'notifications') {
            return Promise.resolve({ state: Notification.permission });
        }
        return originalQuery.call(this, parameters);
    };
})();"#;

/// Overrides `Permissions.prototype.query` to return realistic results.
pub fn js_permissions_query() -> (r: String)
    ensures
        r@ == PERMISSIONS_QUERY_JS@,
{
    owned(PERMISSIONS_QUERY_JS)
}

/// Script text: spoofs `navigator.mediaDevices.enumerateDevices`.
pub const MEDIA_DEVICES_JS: &'static str = r#"// [OpenClaw Stealth: media_devices]
(function() {
    if (!navigator.mediaDevices) return;

    const origEnumerate = navigator.mediaDevices.enumerateDevices;
    navigator.mediaDevices.enumerateDevices = function() {
        return origEnumerate.call(this).then(function(devices) {
            // Return realistic device list with anonymised IDs
            if (devices.length === 0) {
                return [
                    { deviceId: '', groupId: '', kind: 'audioinput', label: '' },
                    { deviceId: '', groupId: '', kind: 'videoinput', label: '' },
                    { deviceId: '', groupId: '', kind: 'audiooutput', label: '' }
                ];
            }
            return devices;
        });
    };
})();"#;

/// Spoofs `navigator.mediaDevices.enumerateDevices`.
pub fn js_media_devices() -> (r: String)
    ensures
        r@ == MEDIA_DEVICES_JS@,
{
    owned(MEDIA_DEVICES_JS)
}

/// Script text: removes Chrome DevTools `cdc_*` variables.
pub const CDC_CLEANUP_JS: &'static str = r#"// [OpenClaw Stealth: cdc_cleanup]
(function() {
    // Remove cdc_ variables that Chrome DevTools Protocol leaves behind
    const props = Object.getOwnPropertyNames(window);
    for (const prop of props) {
        if (prop.match(/^cdc_/) || prop.match(/^__cdc_/)) {
            try { delete window[prop]; } catch(e) {}
        }
    }

    // Also remove from document
    const docProps = Object.getOwnPropertyNames(document);
    for (const prop of docProps) {
        if (prop.match(/^cdc_/) || prop.match(/^\$cdc_/)) {
            try { delete document[prop]; } catch(e) {}
        }
    }

    // Remove callPhantom / _phantom
    try { delete window.callPhantom; } catch(e) {}
    try { delete window._phantom; } catch(e) {}
    try { delete window.__nightmare; } catch(e) {}
})();"#;

/// Removes Chrome DevTools `cdc_*` variables.
pub fn js_cdc_cleanup() -> (r: String)
    ensures
        r@ == CDC_CLEANUP_JS@,
{
    owned(CDC_CLEANUP_JS)
}

/// Script text: makes `iframe.contentWindow` match the parent context.
pub const IFRAME_FIX_JS: &'static str = r#"// [OpenClaw Stealth: iframe_fix]
(function() {
    // Ensure iframe contentWindow exposes the same navigator/chrome properties
    const origCreateElement = document.createElement.bind(document);
    document.createElement = function() {
        const el = origCreateElement.apply(this, arguments);
        if (arguments[0] && arguments[0].toLowerCase() === 'iframe') {
            const origContentWindow = Object.getOwnPropertyDescriptor(
                HTMLIFrameElement.prototype, 'contentWindow'
            );
            if (origContentWindow && origContentWindow.get) {
                Object.defineProperty(el, 'contentWindow', {
                    get: function() {
                        const win = origContentWindow.get.call(this);
                        if (win) {
                            try {
                                // Patch webdriver in iframe context
                                Object.defineProperty(win.navigator, 'webdriver', {
                                    get: () => undefined,
                                    configurable: true
                                });
                            } catch(e) {
                                // Cross-origin — cannot patch
                            }
                        }
                        return win;
                    },
                    configurable: true
                });
            }
        }
        return el;
    };
    // Preserve toString to avoid detection
    document.createElement.toString = function() { return 'function createElement() { [native code] }'; };
})();"#;

/// Makes `iframe.contentWindow` match the parent context.
pub fn js_iframe_fix() -> (r: String)
    ensures
        r@ == IFRAME_FIX_JS@,
{
    owned(IFRAME_FIX_JS)
}

/// Script text: normalizes font metrics.
pub const FONT_NORMALIZE_JS: &'static str = r#"// [OpenClaw Stealth: font_normalize]
(function() {
    // Slightly randomise measureText to defeat font enumeration fingerprinting
    const origMeasureText = CanvasRenderingContext2D.prototype.measureText;
    CanvasRenderingContext2D.prototype.measureText = function(text) {
        const metrics = origMeasureText.call(this, text);
        const origWidth = metrics.width;
        // Return a Proxy that adds tiny noise to width
        return new Proxy(metrics, {
            get: function(target, prop) {
                if (prop === 'width') {
                    return origWidth + (Math.random() - 0.5) * 0.00001;
                }
                const val = target[prop];
                if (typeof val === 'function') return val.bind(target);
                return val;
            }
        });
    };
})();"#;

/// Normalizes font metrics.
pub fn js_font_normalize() -> (r: String)
    ensures
        r@ == FONT_NORMALIZE_JS@,
{
    owned(FONT_NORMALIZE_JS)
}

/// Script text: prevents shadow DOM detection of automation.
pub const SHADOW_DOM_FIX_JS: &'static str = r#"// [OpenClaw Stealth: shadow_dom_fix]
(function() {
    // Prevent detection of CDP-injected shadow roots
    const origAttachShadow = Element.prototype.attachShadow;
    Element.prototype.attachShadow = function() {
        const shadow = origAttachShadow.apply(this, arguments);
        // Ensure shadow root doesn't leak automation indicators
        return shadow;
    };
    Element.prototype.attachShadow.toString = function() {
        return 'function attachShadow() { [native code] }';
    };

    // Hide the automation-related attributes
    const origGetAttribute = Element.prototype.getAttribute;
    Element.prototype.getAttribute = function(name) {
        if (name === 'data-selenium' || name === 'data-puppeteer' || name === 'data-cypress') {
            return null;
        }
        return origGetAttribute.call(this, name);
    };
    Element.prototype.getAttribute.toString = function() {
        return 'function getAttribute() { [native code] }';
    };
})();"#;

/// Prevents shadow DOM detection of automation.
pub fn js_shadow_dom_fix() -> (r: String)
    ensures
        r@ == SHADOW_DOM_FIX_JS@,
{
    owned(SHADOW_DOM_FIX_JS)
}

/// Literal part 0 of the language js script.
pub const LANGUAGE_JS_0: &'static str = r#"// [OpenClaw Stealth: language_consistency]
(function() {
    Object.defineProperty(navigator, 'language', {
        get: () => ""#;

/// Literal part 1 of the language js script.
pub const LANGUAGE_JS_1: &'static str = r#"",
        configurable: true
    });
    Object.defineProperty(navigator, 'languages', {
        get: () => Object.freeze(["#;

/// Literal part 2 of the language js script.
pub const LANGUAGE_JS_2: &'static str = r#"]),
        configurable: true
    });
})();"#;

/// Literal part 0 of the webgl js script.
pub const WEBGL_JS_0: &'static str = r#"// [OpenClaw Stealth: webgl_noise]
(function() {
    const VENDOR = ""#;

/// Literal part 1 of the webgl js script.
pub const WEBGL_JS_1: &'static str = r#"";
    const RENDERER = ""#;

/// Literal part 2 of the webgl js script.
pub const WEBGL_JS_2: &'static str = r#"";

    const getParameterOrig = WebGLRenderingContext.prototype.getParameter;
    WebGLRenderingContext.prototype.getParameter = function(param) {
        const UNMASKED_VENDOR = 0x9245;
        const UNMASKED_RENDERER = 0x9246;
        if (param === UNMASKED_VENDOR || param === 37445) return VENDOR;
        if (param === UNMASKED_RENDERER || param === 37446) return RENDERER;
        return getParameterOrig.call(this, param);
    };

    if (typeof WebGL2RenderingContext !== 'undefined') {
        const getParam2Orig = WebGL2RenderingContext.prototype.getParameter;
        WebGL2RenderingContext.prototype.getParameter = function(param) {
            const UNMASKED_VENDOR = 0x9245;
            const UNMASKED_RENDERER = 0x9246;
            if (param === UNMASKED_VENDOR || param === 37445) return VENDOR;
            if (param === UNMASKED_RENDERER || param === 37446) return RENDERER;
            return getParam2Orig.call(this, param);
        };
    }

    // Add subtle noise to readPixels
    const readPixelsOrig = WebGLRenderingContext.prototype.readPixels;
    WebGLRenderingContext.prototype.readPixels = function() {
        readPixelsOrig.apply(this, arguments);
        const pixels = arguments[6];
        if (pixels && pixels.length) {
            for (let i = 0; i < pixels.length; i += 4) {
                // Only shift the least-significant bit of each channel
                pixels[i] ^= (Math.random() > 0.5 ? 1 : 0);
            }
        }
    };
})();"#;

/// Literal part 0 of the screen js script.
pub const SCREEN_JS_0: &'static str = r#"// [OpenClaw Stealth: screen_props]
(function() {
    Object.defineProperty(screen, 'width', {
        get: () => "#;

/// Literal part 1 of the screen js script.
pub const SCREEN_JS_1: &'static str = r#",
        configurable: true
    });
    Object.defineProperty(screen, 'height', {
        get: () => "#;

/// Literal part 2 of the screen js script.
pub const SCREEN_JS_2: &'static str = r#",
        configurable: true
    });
    Object.defineProperty(screen, 'availWidth', {
        get: () => "#;

/// Literal part 3 of the screen js script.
pub const SCREEN_JS_3: &'static str = r#",
        configurable: true
    });
    Object.defineProperty(screen, 'availHeight', {
        get: () => "#;

/// Literal part 4 of the screen js script.
pub const SCREEN_JS_4: &'static str = r#",
        configurable: true
    });
    Object.defineProperty(screen, 'colorDepth', {
        get: () => "#;

/// Literal part 5 of the screen js script.
pub const SCREEN_JS_5: &'static str = r#",
        configurable: true
    });
    Object.defineProperty(screen, 'pixelDepth', {
        get: () => "#;

/// Literal part 6 of the screen js script.
pub const SCREEN_JS_6: &'static str = r#",
        configurable: true
    });
})();"#;

/// Literal part 0 of the ua js script.
pub const UA_JS_0: &'static str = r#"// [OpenClaw Stealth: ua_override]
(function() {
    const UA = ""#;

/// Literal part 1 of the ua js script.
pub const UA_JS_1: &'static str = r#"";
    const APP_VERSION = ""#;

/// Literal part 2 of the ua js script.
pub const UA_JS_2: &'static str = r#"";

    Object.defineProperty(navigator, 'userAgent', {
        get: () => UA,
        configurable: true
    });
    Object.defineProperty(navigator, 'appVersion', {
        get: () => APP_VERSION,
        configurable: true
    });
    // Override UserAgentData if present
    if (navigator.userAgentData) {
        const origBrands = navigator.userAgentData.brands;
        Object.defineProperty(navigator, 'userAgentData', {
            get: () => ({
                brands: origBrands || [
                    { brand: "Not_A Brand", version: "8" },
                    { brand: "Chromium", version: "120" },
                    { brand: "Google Chrome", version: "120" }
                ],
                mobile: false,
                platform: "Windows",
                getHighEntropyValues: function(hints) {
                    return Promise.resolve({
                        brands: this.brands,
                        mobile: false,
                        platform: "Windows",
                        platformVersion: "15.0.0",
                        architecture: "x86",
                        bitness: "64",
                        model: "",
                        uaFullVersion: "120.0.0.0"
                    });
                }
            }),
            configurable: true
        });
    }
})();"#;

/// Literal part 0 of the hardware js script.
pub const HARDWARE_JS_0: &'static str = r#"// [OpenClaw Stealth: hardware_props]
(function() {
    Object.defineProperty(navigator, 'hardwareConcurrency', {
        get: () => "#;

/// Literal part 1 of the hardware js script.
pub const HARDWARE_JS_1: &'static str = r#",
        configurable: true
    });
    Object.defineProperty(navigator, 'deviceMemory', {
        get: () => "#;

/// Literal part 2 of the hardware js script.
pub const HARDWARE_JS_2: &'static str = r#",
        configurable: true
    });
})();"#;

/// Literal part 0 of the canvas js script.
pub const CANVAS_JS_0: &'static str = r#"// [OpenClaw Stealth: canvas_noise]
(function() {
    const NOISE_STRENGTH = "#;

/// Literal part 1 of the canvas js script.
pub const CANVAS_JS_1: &'static str = r#";

    const origToDataURL = HTMLCanvasElement.prototype.toDataURL;
    HTMLCanvasElement.prototype.toDataURL = function() {
        try {
            const ctx = this.getContext('2d');
            if (ctx) {
                const imageData = ctx.getImageData(0, 0, this.width, this.height);
                const data = imageData.data;
                for (let i = 0; i < data.length; i += 4) {
                    // Add very subtle noise to RGB channels
                    data[i]   = Math.max(0, Math.min(255, data[i]   + Math.floor((Math.random() - 0.5) * 255 * NOISE_STRENGTH)));
                    data[i+1] = Math.max(0, Math.min(255, data[i+1] + Math.floor((Math.random() - 0.5) * 255 * NOISE_STRENGTH)));
                    data[i+2] = Math.max(0, Math.min(255, data[i+2] + Math.floor((Math.random() - 0.5) * 255 * NOISE_STRENGTH)));
                }
                ctx.putImageData(imageData, 0, 0);
            }
        } catch(e) {
            // Canvas may be tainted — ignore
        }
        return origToDataURL.apply(this, arguments);
    };

    const origToBlob = HTMLCanvasElement.prototype.toBlob;
    HTMLCanvasElement.prototype.toBlob = function(callback) {
        try {
            const ctx = this.getContext('2d');
            if (ctx) {
                const imageData = ctx.getImageData(0, 0, this.width, this.height);
                const data = imageData.data;
                for (let i = 0; i < data.length; i += 4) {
                    data[i]   = Math.max(0, Math.min(255, data[i]   + Math.floor((Math.random() - 0.5) * 255 * NOISE_STRENGTH)));
                    data[i+1] = Math.max(0, Math.min(255, data[i+1] + Math.floor((Math.random() - 0.5) * 255 * NOISE_STRENGTH)));
                    data[i+2] = Math.max(0, Math.min(255, data[i+2] + Math.floor((Math.random() - 0.5) * 255 * NOISE_STRENGTH)));
                }
                ctx.putImageData(imageData, 0, 0);
            }
        } catch(e) {}
        return origToBlob.apply(this, arguments);
    };
})();"#;

/// Literal part 0 of the audio js script.
pub const AUDIO_JS_0: &'static str = r#"// [OpenClaw Stealth: audio_noise]
(function() {
    const NOISE = "#;

/// Literal part 1 of the audio js script.
pub const AUDIO_JS_1: &'static str = r#";
    const Ctx = window.AudioContext || window.webkitAudioContext;
    if (!Ctx) return;

    const origCreateAnalyser = Ctx.prototype.createAnalyser;
    Ctx.prototype.createAnalyser = function() {
        const analyser = origCreateAnalyser.call(this);
        const origGetFloatFreq = analyser.getFloatFrequencyData.bind(analyser);
        analyser.getFloatFrequencyData = function(array) {
            origGetFloatFreq(array);
            for (let i = 0; i < array.length; i++) {
                array[i] += (Math.random() - 0.5) * NOISE;
            }
        };
        return analyser;
    };

    const origCreateOscillator = Ctx.prototype.createOscillator;
    Ctx.prototype.createOscillator = function() {
        const osc = origCreateOscillator.call(this);
        const origConnect = osc.connect.bind(osc);
        osc.connect = function(dest) {
            // If connecting to an AnalyserNode, the noise is already injected above
            return origConnect(dest);
        };
        return osc;
    };

    // Intercept getChannelData for OfflineAudioContext
    const OffCtx = window.OfflineAudioContext || window.webkitOfflineAudioContext;
    if (OffCtx) {
        const origGetChannelData = AudioBuffer.prototype.getChannelData;
        AudioBuffer.prototype.getChannelData = function(channel) {
            const data = origGetChannelData.call(this, channel);
            for (let i = 0; i < data.length; i++) {
                data[i] += (Math.random() - 0.5) * NOISE;
            }
            return data;
        };
    }
})();"#;


/// `"l1", "l2", ...`: each language quoted, joined by `, `.
pub open spec fn quoted_join(ls: Seq<Seq<char>>) -> Seq<char>
    decreases ls.len(),
{
    if ls.len() == 0 {
        Seq::empty()
    } else if ls.len() == 1 {
        "\""@ + ls[0] + "\""@
    } else {
        quoted_join(ls.drop_last()) + ", "@ + "\""@ + ls.last() + "\""@
    }
}

/// Script text keeping `navigator.language` and `navigator.languages`
/// consistent with `languages` (the first, or `en-US`, is the primary one).
pub open spec fn language_js(languages: Seq<Seq<char>>) -> Seq<char> {
    let primary = if languages.len() > 0 { languages[0] } else { "en-US"@ };
    LANGUAGE_JS_0@ + primary + LANGUAGE_JS_1@ + quoted_join(languages) + LANGUAGE_JS_2@
}

/// Ensures `navigator.language` and `navigator.languages` are consistent.
pub fn js_language_consistency(languages: &[String]) -> (r: String)
    ensures
        r@ == language_js(languages@.map_values(|s: String| s@)),
{
    let ghost ls = languages@.map_values(|s: String| s@);
    let mut joined = String::new();
    let mut i: usize = 0;
    assert(ls.take(0) =~= Seq::<Seq<char>>::empty());
    while i < languages.len()
        invariant
            i <= languages.len(),
            ls == languages@.map_values(|s: String| s@),
            joined@ == quoted_join(ls.take(i as int)),
        decreases languages.len() - i,
    {
        if i > 0 {
            push_str(&mut joined, ", ");
        }
        push_str(&mut joined, "\"");
        push_str(&mut joined, languages[i].as_str());
        push_str(&mut joined, "\"");
        proof {
            assert(ls.take(i + 1).drop_last() =~= ls.take(i as int));
            assert(ls.take(i + 1).last() == languages@[i as int]@);
            if i == 0 {
                assert(ls.take(1)[0] == languages@[0]@);
                assert(joined@ =~= "\""@ + languages@[0]@ + "\""@);
            }
        }
        i += 1;
    }
    assert(ls.take(i as int) =~= ls);
    let mut r = owned(LANGUAGE_JS_0);
    if languages.len() > 0 {
        push_str(&mut r, languages[0].as_str());
    } else {
        push_str(&mut r, "en-US");
    }
    push_str(&mut r, LANGUAGE_JS_1);
    push_str(&mut r, joined.as_str());
    push_str(&mut r, LANGUAGE_JS_2);
    r
}

/// Script text overriding the WebGL vendor and renderer strings and
/// perturbing `readPixels`.
pub open spec fn webgl_js(vendor: Seq<char>, renderer: Seq<char>) -> Seq<char> {
    WEBGL_JS_0@ + vendor + WEBGL_JS_1@ + renderer + WEBGL_JS_2@
}

/// Overrides WebGL `getParameter` for vendor/renderer and adds noise to `readPixels`.
pub fn js_webgl_noise(vendor: &str, renderer: &str) -> (r: String)
    ensures
        r@ == webgl_js(vendor@, renderer@),
{
    let mut r = owned(WEBGL_JS_0);
    push_str(&mut r, vendor);
    push_str(&mut r, WEBGL_JS_1);
    push_str(&mut r, renderer);
    push_str(&mut r, WEBGL_JS_2);
    r
}

/// Script text overriding the screen size and color depth.
pub open spec fn screen_js(width: u32, height: u32, depth: u32) -> Seq<char> {
    SCREEN_JS_0@ + decimal(width as nat) + SCREEN_JS_1@ + decimal(height as nat) + SCREEN_JS_2@
        + decimal(width as nat) + SCREEN_JS_3@ + decimal(height as nat) + SCREEN_JS_4@
        + decimal(depth as nat) + SCREEN_JS_5@ + decimal(depth as nat) + SCREEN_JS_6@
}

/// Overrides `screen.width`, `screen.height` and `screen.colorDepth`.
pub fn js_screen_props(width: u32, height: u32, depth: u32) -> (r: String)
    ensures
        r@ == screen_js(width, height, depth),
{
    let mut r = owned(SCREEN_JS_0);
    push_decimal(&mut r, width as u64);
    push_str(&mut r, SCREEN_JS_1);
    push_decimal(&mut r, height as u64);
    push_str(&mut r, SCREEN_JS_2);
    push_decimal(&mut r, width as u64);
    push_str(&mut r, SCREEN_JS_3);
    push_decimal(&mut r, height as u64);
    push_str(&mut r, SCREEN_JS_4);
    push_decimal(&mut r, depth as u64);
    push_str(&mut r, SCREEN_JS_5);
    push_decimal(&mut r, depth as u64);
    push_str(&mut r, SCREEN_JS_6);
    r
}

/// The `appVersion` derived from a user agent: what follows the first
/// `Mozilla/`, or a Windows default.
pub open spec fn app_version_of(ua: Seq<char>) -> Seq<char> {
    match first_occurrence_from(ua, "Mozilla/"@, 0) {
        Some(i) => ua.subrange(i + 8, ua.len() as int),
        None => "5.0 (Windows NT 10.0; Win64; x64)"@,
    }
}

/// Script text overriding the user agent everywhere it is exposed.
pub open spec fn ua_js(ua: Seq<char>) -> Seq<char> {
    UA_JS_0@ + ua + UA_JS_1@ + app_version_of(ua) + UA_JS_2@
}

/// Overrides the user agent consistently across `navigator.userAgent`,
/// `navigator.appVersion` and `navigator.userAgentData`.
pub fn js_ua_override(ua: &str) -> (r: String)
    ensures
        r@ == ua_js(ua@),
{
    let uc = chars_of(ua);
    let pat = chars_of("Mozilla/");
    proof { reveal_strlit("Mozilla/"); }
    let app_version = match find_from(&uc, &pat, 0) {
        Some(i) => {
            proof { lemma_first_occurrence(uc@, pat@, 0); }
            assert(pat@.len() == 8);
            assert(occurs_at(uc@, pat@, i as int));
            let n = uc.len();
            assert(i + 8 <= n);
            let mut v: Vec<char> = Vec::new();
            let mut k = i + 8;
            while k < uc.len()
                invariant
                    i + 8 <= k <= uc.len(),
                    v@ == uc@.subrange(i + 8, k as int),
                decreases uc.len() - k,
            {
                v.push(uc[k]);
                k += 1;
                assert(uc@.subrange(i + 8, k as int) =~= uc@.subrange(i + 8, k - 1).push(uc@[k - 1]));
            }
            string_of(&v)
        },
        None => owned("5.0 (Windows NT 10.0; Win64; x64)"),
    };
    let mut r = owned(UA_JS_0);
    push_str(&mut r, ua);
    push_str(&mut r, UA_JS_1);
    push_str(&mut r, app_version.as_str());
    push_str(&mut r, UA_JS_2);
    r
}

/// Script text overriding the screen resolution and user agent, or keeping
/// languages consistent, contains its evasion's marker comment.
pub proof fn lemma_screen_script_shape(width: u32, height: u32, depth: u32)
    ensures
        screen_js(width, height, depth).len() > SCREEN_JS_0@.len(),
        screen_js(width, height, depth).subrange(0, SCREEN_JS_0@.len() as int) == SCREEN_JS_0@,
{
    let s = screen_js(width, height, depth);
    let rest = decimal(width as nat) + SCREEN_JS_1@ + decimal(height as nat) + SCREEN_JS_2@
        + decimal(width as nat) + SCREEN_JS_3@ + decimal(height as nat) + SCREEN_JS_4@
        + decimal(depth as nat) + SCREEN_JS_5@ + decimal(depth as nat) + SCREEN_JS_6@;
    lemma_decimal_nonempty(width as nat);
    assert(s =~= SCREEN_JS_0@ + rest);
    assert(s.subrange(0, SCREEN_JS_0@.len() as int) =~= SCREEN_JS_0@);
}

proof fn lemma_decimal_nonempty(n: nat)
    ensures
        decimal(n).len() > 0,
    decreases n,
{
    if n >= 10 {
        lemma_decimal_nonempty(n / 10);
    }
}


// ---------------------------------------------------------------------------
// The combined script
// ---------------------------------------------------------------------------

/// What the generated script takes from the stealth configuration. The
/// three snippets whose text depends on floating-point settings (canvas
/// and audio noise strength, device memory) come already formatted.
#[derive(Debug, Clone)]
pub struct ScriptSettings {
    pub user_agent: Option<String>,
    pub webgl_vendor: Option<String>,
    pub webgl_renderer: Option<String>,
    pub languages: Option<Vec<String>>,
    pub screen_width: Option<u32>,
    pub screen_height: Option<u32>,
    pub color_depth: Option<u32>,
    /// The canvas-noise snippet.
    pub canvas_snippet: String,
    /// The audio-noise snippet.
    pub audio_snippet: String,
    /// The hardware-concurrency and device-memory snippet.
    pub hardware_snippet: String,
}

/// Text before the evasion snippets.
pub const SCRIPT_HEADER: &'static str = "// OpenClaw Stealth Evasions \u{2014} generated script\n(function() {\n'use strict';\n\n";

/// Text after the evasion snippets.
pub const SCRIPT_FOOTER: &'static str = "\n\n})();";

/// The user agent used when none is configured.
pub const DEFAULT_USER_AGENT: &'static str = "Mozilla/5.0 (Windows NT 10.0; Win64; x64) AppleWebKit/537.36 (KHTML, like Gecko) Chrome/120.0.0.0 Safari/537.36";

/// An optional string's characters, or `default`.
pub open spec fn or_default(o: Option<String>, default: Seq<char>) -> Seq<char> {
    match o {
        Some(v) => v@,
        None => default,
    }
}

/// The configured languages, or `en-US, en`.
pub open spec fn languages_of(s: ScriptSettings) -> Seq<Seq<char>> {
    match s.languages {
        Some(v) => v@.map_values(|x: String| x@),
        None => seq!["en-US"@, "en"@],
    }
}

/// An optional number, or `default`.
pub open spec fn u32_or(o: Option<u32>, default: u32) -> u32 {
    match o {
        Some(v) => v,
        None => default,
    }
}

/// The snippet that implements evasion `e` under settings `s`.
pub open spec fn snippet(e: Evasion, s: ScriptSettings) -> Seq<char> {
    match e {
        Evasion::WebdriverHide => WEBDRIVER_HIDE_JS@,
        Evasion::ChromeRuntime => CHROME_RUNTIME_JS@,
        Evasion::PluginArray => PLUGIN_ARRAY_JS@,
        Evasion::MimeTypeArray => MIME_TYPE_ARRAY_JS@,
        Evasion::LanguageConsistency => language_js(languages_of(s)),
        Evasion::PermissionsQuery => PERMISSIONS_QUERY_JS@,
        Evasion::WebglVendor | Evasion::WebglNoise => webgl_js(
            or_default(s.webgl_vendor, "Intel Inc."@),
            or_default(s.webgl_renderer, "Intel Iris OpenGL Engine"@),
        ),
        Evasion::CanvasNoise => s.canvas_snippet@,
        Evasion::AudioContextNoise => s.audio_snippet@,
        Evasion::MediaDevices => MEDIA_DEVICES_JS@,
        Evasion::HardwareConcurrency | Evasion::DeviceMemory => s.hardware_snippet@,
        Evasion::ScreenResolution => screen_js(
            u32_or(s.screen_width, 1920),
            u32_or(s.screen_height, 1080),
            u32_or(s.color_depth, 24),
        ),
        Evasion::IframeContentWindow => IFRAME_FIX_JS@,
        Evasion::UserAgentOverride => ua_js(or_default(s.user_agent, DEFAULT_USER_AGENT@)),
        Evasion::FontFingerprint => FONT_NORMALIZE_JS@,
        Evasion::CdcVariables => CDC_CLEANUP_JS@,
        Evasion::ShadowDomLeaks => SHADOW_DOM_FIX_JS@,
    }
}

/// The snippets of `es`, in order.
pub open spec fn snippets(es: Seq<Evasion>, s: ScriptSettings) -> Seq<Seq<char>> {
    es.map_values(|e: Evasion| snippet(e, s))
}

/// The combined script: every snippet, separated by blank lines, inside
/// one strict-mode function that runs at once.
pub open spec fn script_of(es: Seq<Evasion>, s: ScriptSettings) -> Seq<char> {
    SCRIPT_HEADER@ + join_with(snippets(es, s), "\n\n"@) + SCRIPT_FOOTER@
}

fn snippet_for(e: Evasion, s: &ScriptSettings) -> (r: String)
    ensures
        r@ == snippet(e, *s),
{
    match e {
        Evasion::WebdriverHide => js_webdriver_hide(),
        Evasion::ChromeRuntime => js_chrome_runtime(),
        Evasion::PluginArray => js_plugin_array(),
        Evasion::MimeTypeArray => js_mime_type_array(),
        Evasion::LanguageConsistency => match &s.languages {
            Some(v) => js_language_consistency(v.as_slice()),
            None => {
                let v = vec![owned("en-US"), owned("en")];
                assert(v@.map_values(|x: String| x@) =~= seq!["en-US"@, "en"@]);
                js_language_consistency(v.as_slice())
            },
        },
        Evasion::PermissionsQuery => js_permissions_query(),
        Evasion::WebglVendor | Evasion::WebglNoise => {
            let vendor = match &s.webgl_vendor {
                Some(v) => v.as_str(),
                None => "Intel Inc.",
            };
            let renderer = match &s.webgl_renderer {
                Some(v) => v.as_str(),
                None => "Intel Iris OpenGL Engine",
            };
            js_webgl_noise(vendor, renderer)
        },
        Evasion::CanvasNoise => s.canvas_snippet.clone(),
        Evasion::AudioContextNoise => s.audio_snippet.clone(),
        Evasion::MediaDevices => js_media_devices(),
        Evasion::HardwareConcurrency | Evasion::DeviceMemory => s.hardware_snippet.clone(),
        Evasion::ScreenResolution => {
            let w = match s.screen_width {
                Some(v) => v,
                None => 1920,
            };
            let h = match s.screen_height {
                Some(v) => v,
                None => 1080,
            };
            let d = match s.color_depth {
                Some(v) => v,
                None => 24,
            };
            js_screen_props(w, h, d)
        },
        Evasion::IframeContentWindow => js_iframe_fix(),
        Evasion::UserAgentOverride => {
            let ua = match &s.user_agent {
                Some(v) => v.as_str(),
                None => DEFAULT_USER_AGENT,
            };
            js_ua_override(ua)
        },
        Evasion::FontFingerprint => js_font_normalize(),
        Evasion::CdcVariables => js_cdc_cleanup(),
        Evasion::ShadowDomLeaks => js_shadow_dom_fix(),
    }
}

impl StealthEvasions {
    /// The combined script of the enabled evasions, in order, wrapped in a
    /// strict-mode function that runs at once.
    pub fn generate_script(&self, settings: &ScriptSettings) -> (r: String)
        ensures
            r@ == script_of(self.enabled_evasions@, *settings),
    {
        let ghost es = self.enabled_evasions@;
        let mut body = String::new();
        let mut i: usize = 0;
        assert(snippets(es, *settings).take(0) =~= Seq::<Seq<char>>::empty());
        while i < self.enabled_evasions.len()
            invariant
                es == self.enabled_evasions@,
                i <= es.len(),
                body@ == join_with(snippets(es, *settings).take(i as int), "\n\n"@),
            decreases es.len() - i,
        {
            let part = snippet_for(self.enabled_evasions[i], settings);
            if i > 0 {
                push_str(&mut body, "\n\n");
            }
            push_str(&mut body, part.as_str());
            proof {
                let sn = snippets(es, *settings);
                assert(sn.take(i + 1).drop_last() =~= sn.take(i as int));
                assert(sn.take(i + 1).last() == part@);
                if i == 0 {
                    assert(sn.take(1).len() == 1);
                    assert(body@ =~= sn.take(1)[0]);
                }
            }
            i += 1;
        }
        assert(snippets(es, *settings).take(i as int) =~= snippets(es, *settings));
        let mut script = owned(SCRIPT_HEADER);
        push_str(&mut script, body.as_str());
        push_str(&mut script, SCRIPT_FOOTER);
        script
    }
}

/// With every evasion enabled, the script holds the canvas, WebGL and
/// audio snippets.
pub proof fn lemma_all_script_has_noise_snippets(s: ScriptSettings)
    ensures
        snippets(all_evasions(), s).contains(s.canvas_snippet@),
        snippets(all_evasions(), s).contains(s.audio_snippet@),
        snippets(all_evasions(), s).contains(
            webgl_js(
                or_default(s.webgl_vendor, "Intel Inc."@),
                or_default(s.webgl_renderer, "Intel Iris OpenGL Engine"@),
            ),
        ),
{
    let sn = snippets(all_evasions(), s);
    assert(sn[8] == s.canvas_snippet@);
    assert(sn[9] == s.audio_snippet@);
    assert(sn[6] == snippet(Evasion::WebglVendor, s));
}

} // verus!
