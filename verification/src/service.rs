//! Login-service definitions (launchd agent, systemd user unit) for the daemon.

use vstd::prelude::*;
use vstd::string::StringExecFns;

verus! {

/// Spec for the service definition: which exe to run + base dir.
pub struct ServiceSpec {
    pub label: String,
    pub exe: String,
    pub base: String,
}

/// The label the daemon's login service is installed under.
pub fn service_label() -> (s: String)
    ensures
        s@ == "com.servicio.daemon"@,
{
    "com.servicio.daemon".to_owned()
}

/// The plist text for `label`, `exe` and `base`.
pub open spec fn plist_text(label: Seq<char>, exe: Seq<char>, base: Seq<char>) -> Seq<char> {
    "<?xml version=\"1.0\" encoding=\"UTF-8\"?>
<!DOCTYPE plist PUBLIC \"-//Apple//DTD PLIST 1.0//EN\" \"http://www.apple.com/DTDs/PropertyList-1.0.dtd\">
<plist version=\"1.0\">
<dict>
    <key>Label</key>
    <string>"@ + label + "</string>
    <key>ProgramArguments</key>
    <array>
        <string>"@ + exe + "</string>
        <string>serve</string>
        <string>--base</string>
        <string>"@ + base + "</string>
    </array>
    <key>RunAtLoad</key>
    <true/>
    <key>KeepAlive</key>
    <true/>
</dict>
</plist>
"@
}

/// macOS LaunchAgent plist: runs `<exe> serve --base <base>`, at login, kept alive.
pub fn launchd_plist(spec: &ServiceSpec) -> (s: String)
    ensures
        s@ == plist_text(spec.label@, spec.exe@, spec.base@),
{
    let mut s = "<?xml version=\"1.0\" encoding=\"UTF-8\"?>
<!DOCTYPE plist PUBLIC \"-//Apple//DTD PLIST 1.0//EN\" \"http://www.apple.com/DTDs/PropertyList-1.0.dtd\">
<plist version=\"1.0\">
<dict>
    <key>Label</key>
    <string>".to_owned();
    s.append(spec.label.as_str());
    s.append("</string>
    <key>ProgramArguments</key>
    <array>
        <string>");
    s.append(spec.exe.as_str());
    s.append("</string>
        <string>serve</string>
        <string>--base</string>
        <string>");
    s.append(spec.base.as_str());
    s.append("</string>
    </array>
    <key>RunAtLoad</key>
    <true/>
    <key>KeepAlive</key>
    <true/>
</dict>
</plist>
");
    s
}

/// The systemd unit text for `exe` and `base`.
pub open spec fn unit_text(exe: Seq<char>, base: Seq<char>) -> Seq<char> {
    "[Unit]\nDescription=Servicio supervisor daemon\nAfter=default.target\n\n[Service]\nExecStart="@
        + exe + " serve --base "@ + base
        + "\nRestart=always\nRestartSec=2\n\n[Install]\nWantedBy=default.target\n"@
}

/// systemd user unit: runs `<exe> serve --base <base>`, restart always, at login.
pub fn systemd_unit(spec: &ServiceSpec) -> (s: String)
    ensures
        s@ == unit_text(spec.exe@, spec.base@),
{
    let mut s = "[Unit]\nDescription=Servicio supervisor daemon\nAfter=default.target\n\n[Service]\nExecStart=".to_owned();
    s.append(spec.exe.as_str());
    s.append(" serve --base ");
    s.append(spec.base.as_str());
    s.append("\nRestart=always\nRestartSec=2\n\n[Install]\nWantedBy=default.target\n");
    s
}

} // verus!
