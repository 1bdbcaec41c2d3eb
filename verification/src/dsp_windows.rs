//! The PowerShell scripts the DSP app runs on Windows: making a device the
//! default playback device, and checking and installing the audio
//! processing object on a device's endpoint; and how their output is read.
use vstd::prelude::*;
use crate::text::{chars_of, has_prefix, starts_with, string_of, trim, trim_both, trim_pred, TrimSet};

verus! {

/// The class id the audio processing object is registered under.
pub const CLSID_VESPER_APO_STR: &'static str = "{794D0219-58D6-4F71-B53B-987895A5497B}";

/// A fixed part of the playback switch script.
pub const PLAYBACK_SWITCH_HEAD: &'static str = "\nAdd-Type @\"\nusing System;\nusing System.Runtime.InteropServices;\n[ComImport]\n[Guid(\"870af99c-171d-4f9e-af0d-e63df40c2bc9\")]\npublic class PolicyConfigClient {}\n[Guid(\"f8679f50-850a-41cf-9c72-430f290290c8\"), InterfaceType(ComInterfaceType.InterfaceIsIUnknown)]\npublic interface IPolicyConfig {\n    [PreserveSig] int GetMixFormat();\n    [PreserveSig] int GetDeviceFormat();\n    [PreserveSig] int ResetDeviceFormat();\n    [PreserveSig] int SetDeviceFormat();\n    [PreserveSig] int GetProcessingPeriod();\n    [PreserveSig] int SetProcessingPeriod();\n    [PreserveSig] int GetShareMode();\n    [PreserveSig] int SetShareMode();\n    [PreserveSig] int GetPropertyValue();\n    [PreserveSig] int SetPropertyValue();\n    [PreserveSig] int SetDefaultEndpoint([MarshalAs(UnmanagedType.LPWStr)] string wszDeviceId, int role);\n    [PreserveSig] int SetEndpointVisibility();\n}\npublic class AudioSwitcher {\n    public static int SetDefault(string deviceId) {\n        try {\n            IPolicyConfig policyConfig = (IPolicyConfig)new PolicyConfigClient();\n            int hr1 = policyConfig.SetDefaultEndpoint(deviceId, 0);\n            int hr2 = policyConfig.SetDefaultEndpoint(deviceId, 1);\n            int hr3 = policyConfig.SetDefaultEndpoint(deviceId, 2);\n            return (hr1 == 0 && hr2 == 0 && hr3 == 0) ? 0 : 1;\n        } catch { return -1; }\n    }\n}\n\"@\n$targetName = \"";

/// A fixed part of the playback switch script.
pub const PLAYBACK_SWITCH_TAIL: &'static str = "\"\n$endpoints = Get-ChildItem \"HKLM:\\SOFTWARE\\Microsoft\\Windows\\CurrentVersion\\MMDevices\\Audio\\Render\" -ErrorAction SilentlyContinue\nforeach ($ep in $endpoints) {\n    $p = Get-ItemProperty \"$($ep.PSPath)\\Properties\" -ErrorAction SilentlyContinue\n    if ($p) {\n        $n1 = [string]$p.'{a45c254e-df1c-4efd-8020-67d146a850e0},2'\n        $n2 = [string]$p.'{b3f8fa53-0004-438e-9003-51a46e139bfc},6'\n        $full1 = \"$n1 ($n2)\"\n        $full2 = \"$n2 ($n1)\"\n        \n        $isMatch = $false\n        if ($targetName -eq $full1 -or $targetName -eq $full2 -or $targetName -eq $n2) {\n            $isMatch = $true\n        } elseif ($n2.Length -ge 3 -and ($targetName.IndexOf($n2, [System.StringComparison]::OrdinalIgnoreCase) -ge 0 -or $n2.IndexOf($targetName, [System.StringComparison]::OrdinalIgnoreCase) -ge 0)) {\n            $isMatch = $true\n        } elseif ($n1.Length -ge 6 -and ($targetName.IndexOf($n1, [System.StringComparison]::OrdinalIgnoreCase) -ge 0 -or $n1.IndexOf($targetName, [System.StringComparison]::OrdinalIgnoreCase) -ge 0)) {\n            $isMatch = $true\n        }\n        \n        if ($isMatch) {\n            $devId = \"{0.0.0.00000000}.$($ep.PSChildName)\"\n            [AudioSwitcher]::SetDefault($devId) | Out-Null\n            break\n        }\n    }\n}\n";

/// A fixed part of the installation check script.
pub const APO_CHECK_HEAD: &'static str = "\n$targetName = \"";

/// A fixed part of the installation check script.
pub const APO_CHECK_TAIL: &'static str = "\"\n$innerName = if ($targetName -match '\\(([^)]+)\\)') { $matches[1].Trim() } else { $targetName.Trim() }\n$clsid = \"{794D0219-58D6-4F71-B53B-987895A5497B}\"\n$endpoints = Get-ChildItem \"HKLM:\\SOFTWARE\\Microsoft\\Windows\\CurrentVersion\\MMDevices\\Audio\\Render\" -ErrorAction SilentlyContinue\n\nforeach ($ep in $endpoints) {\n    $props = Get-ItemProperty \"$($ep.PSPath)\\Properties\" -ErrorAction SilentlyContinue\n    if ($props) {\n        $n1 = [string]$props.'{a45c254e-df1c-4efd-8020-67d146a850e0},2'\n        $n2 = [string]$props.'{b3f8fa53-0004-438e-9003-51a46e139bfc},6'\n        $combined = \"$n1 $n2\".Trim()\n        \n        if (($combined -like \"*$innerName*\") -or ($innerName -like \"*$n2*\")) {\n            $fx = Get-ItemProperty \"$($ep.PSPath)\\FxProperties\" -ErrorAction SilentlyContinue\n            if ($fx -and $fx.'{D04E05A6-594B-4FB6-A80D-01AF5EED7D1D},7' -eq $clsid) {\n                Write-Output \"INSTALLED\"\n                exit\n            }\n        }\n    }\n}\nWrite-Output \"NOT_INSTALLED\"\n";

/// A fixed part of the endpoint search script.
pub const ENDPOINT_SEARCH_HEAD: &'static str = "\n$targetName = \"";

/// A fixed part of the endpoint search script.
pub const ENDPOINT_SEARCH_TAIL: &'static str = "\"\n$innerName = if ($targetName -match '\\(([^)]+)\\)') { $matches[1].Trim() } else { $targetName.Trim() }\n$endpoints = Get-ChildItem \"HKLM:\\SOFTWARE\\Microsoft\\Windows\\CurrentVersion\\MMDevices\\Audio\\Render\" -ErrorAction SilentlyContinue\n\nforeach ($ep in $endpoints) {\n    $props = Get-ItemProperty \"$($ep.PSPath)\\Properties\" -ErrorAction SilentlyContinue\n    if ($props) {\n        $n1 = [string]$props.'{a45c254e-df1c-4efd-8020-67d146a850e0},2'\n        $n2 = [string]$props.'{b3f8fa53-0004-438e-9003-51a46e139bfc},6'\n        $combined = \"$n1 $n2\".Trim()\n        \n        if (($combined -like \"*$innerName*\") -or ($innerName -like \"*$n2*\")) {\n            Write-Output $ep.PSChildName\n            exit\n        }\n    }\n}\n";

/// A fixed part of the install script.
pub const APO_INSTALL_HEAD: &'static str = "\nAdd-Type @\"\nusing System;\nusing System.Runtime.InteropServices;\n\npublic class NativeRegistry {\n    public static readonly IntPtr HKEY_LOCAL_MACHINE = new IntPtr(unchecked((int)0x80000002));\n    public const int KEY_SET_VALUE = 0x0002;\n    public const int KEY_QUERY_VALUE = 0x0001;\n    public const uint REG_SZ = 1;\n\n    [DllImport(\"advapi32.dll\", CharSet = CharSet.Unicode, SetLastError = true)]\n    public static extern int RegOpenKeyEx(IntPtr hKey, string lpSubKey, uint ulOptions, int samDesired, out IntPtr phkResult);\n\n    [DllImport(\"advapi32.dll\", CharSet = CharSet.Unicode, SetLastError = true)]\n    public static extern int RegSetValueEx(IntPtr hKey, string lpValueName, int Reserved, uint dwType, string lpData, int cbData);\n\n    [DllImport(\"advapi32.dll\", SetLastError = true)]\n    public static extern int RegCloseKey(IntPtr hKey);\n\n    public static int WriteValue(string subKey, string valueName, string valueData) {\n        IntPtr hKey;\n        int result = RegOpenKeyEx(HKEY_LOCAL_MACHINE, subKey, 0, KEY_SET_VALUE | KEY_QUERY_VALUE, out hKey);\n        if (result != 0) {\n            result = RegOpenKeyEx(HKEY_LOCAL_MACHINE, subKey, 0, KEY_SET_VALUE, out hKey);\n        }\n        if (result == 0) {\n            int byteLen = (valueData.Length + 1) * 2;\n            result = RegSetValueEx(hKey, valueName, 0, REG_SZ, valueData, byteLen);\n            RegCloseKey(hKey);\n        }\n        return result;\n    }\n\n    public static int WriteDword(string subKey, string valueName, int valueData) {\n        IntPtr hKey;\n        int result = RegOpenKeyEx(HKEY_LOCAL_MACHINE, subKey, 0, KEY_SET_VALUE | KEY_QUERY_VALUE, out hKey);\n        if (result != 0) {\n            result = RegOpenKeyEx(HKEY_LOCAL_MACHINE, subKey, 0, KEY_SET_VALUE, out hKey);\n        }\n        if (result == 0) {\n            byte[] bytes = BitConverter.GetBytes(valueData);\n            result = RegSetValueEx(hKey, valueName, 0, 4, bytes, 4);\n            RegCloseKey(hKey);\n        }\n        return result;\n    }\n}\n\"@\n\n$clsid = \"{794D0219-58D6-4F71-B53B-987895A5497B}\"\n$dll = \"";

/// A fixed part of the install script.
pub const APO_INSTALL_MIDDLE: &'static str = "\"\n$guid = \"";

/// A fixed part of the install script.
pub const APO_INSTALL_TAIL: &'static str = "\"\n\n# 1. HKLM CLSID 등록\nif (!(Test-Path \"HKLM:\\SOFTWARE\\Classes\\CLSID\\$clsid\")) { New-Item -Path \"HKLM:\\SOFTWARE\\Classes\\CLSID\\$clsid\" -Value \"Vesper BioPhys APO\" -Force | Out-Null }\nif (!(Test-Path \"HKLM:\\SOFTWARE\\Classes\\CLSID\\$clsid\\InprocServer32\")) { New-Item -Path \"HKLM:\\SOFTWARE\\Classes\\CLSID\\$clsid\\InprocServer32\" -Value $dll -Force | Out-Null }\nSet-ItemProperty -Path \"HKLM:\\SOFTWARE\\Classes\\CLSID\\$clsid\\InprocServer32\" -Name \"ThreadingModel\" -Value \"Both\" -Force -ErrorAction SilentlyContinue\n\n# 2. HKCU CLSID 등록\nif (!(Test-Path \"HKCU:\\Software\\Classes\\CLSID\\$clsid\")) { New-Item -Path \"HKCU:\\Software\\Classes\\CLSID\\$clsid\" -Value \"Vesper BioPhys APO\" -Force | Out-Null }\nif (!(Test-Path \"HKCU:\\Software\\Classes\\CLSID\\$clsid\\InprocServer32\")) { New-Item -Path \"HKCU:\\Software\\Classes\\CLSID\\$clsid\\InprocServer32\" -Value $dll -Force | Out-Null }\nSet-ItemProperty -Path \"HKCU:\\Software\\Classes\\CLSID\\$clsid\\InprocServer32\" -Name \"ThreadingModel\" -Value \"Both\" -Force -ErrorAction SilentlyContinue\n\n# 3. FxProperties Win32 직접 쓰기\n$subKey = \"SOFTWARE\\Microsoft\\Windows\\CurrentVersion\\MMDevices\\Audio\\Render\\$guid\\FxProperties\"\n[NativeRegistry]::WriteValue($subKey, \"{d04e05a6-594b-4fb6-a80d-01af5eed7d1d},5\", $clsid)\n[NativeRegistry]::WriteValue($subKey, \"{d04e05a6-594b-4fb6-a80d-01af5eed7d1d},6\", $clsid)\n[NativeRegistry]::WriteValue($subKey, \"{d04e05a6-594b-4fb6-a80d-01af5eed7d1d},7\", $clsid)\n\n# 4. 🎛️ [FiiO Thesycon UAC 2.0 384kHz 모드 Windows 마스터 볼륨/음소거 연동 활성화]\n# Thesycon 드라이버가 하드웨어 볼륨 노드를 우회하고 Windows 32-bit 부동소수점 디지털 감쇄기를 직접 활성화하도록 설정\n[NativeRegistry]::WriteDword(\"SYSTEM\\CurrentControlSet\\Services\\fiio_usbaudio\\ParametersDriver\\Settings\", \"DisableKsVolMuteOut\", 1)\n[NativeRegistry]::WriteDword(\"SYSTEM\\CurrentControlSet\\Services\\fiio_usbaudio\\ParametersDriver\\Settings\", \"IgnoreFeatureUnitOut\", 1)\n[NativeRegistry]::WriteDword(\"SYSTEM\\CurrentControlSet\\Services\\fiio_usbaudioks\\Parameters\", \"DisableKsVolMuteOut\", 1)\n[NativeRegistry]::WriteDword(\"SYSTEM\\CurrentControlSet\\Services\\fiio_usbaudioks\\Parameters\", \"IgnoreFeatureUnitOut\", 1)\n[NativeRegistry]::WriteDword(\"SYSTEM\\CurrentControlSet\\Services\\fiio_usbaudio\\Parameters\", \"DisableKsVolMuteOut\", 1)\n[NativeRegistry]::WriteDword(\"SYSTEM\\CurrentControlSet\\Services\\fiio_usbaudioks\\ParametersDriver\\Settings\", \"DisableKsVolMuteOut\", 1)\n\n# 5. 오디오 서비스 안전 재시작\nRestart-Service audiosrv -Force\n";

/// The script that makes the playback endpoint matching a device name the default for every role.
pub open spec fn playback_switch_script_of(device_name: Seq<char>) -> Seq<char> {
    PLAYBACK_SWITCH_HEAD@ + device_name + PLAYBACK_SWITCH_TAIL@
}

/// Builds [`playback_switch_script_of`].
pub fn set_windows_default_playback_device(device_name: &str) -> (r: String)
    ensures
        r@ == playback_switch_script_of(device_name@),
{
    let mut r = PLAYBACK_SWITCH_HEAD.to_owned();
    r.append(device_name);
    r.append(PLAYBACK_SWITCH_TAIL);
    r
}

/// The script that reports `INSTALLED` when the endpoint matching a device name has the audio processing object in its effects chain.
pub open spec fn apo_check_script_of(device_name: Seq<char>) -> Seq<char> {
    APO_CHECK_HEAD@ + device_name + APO_CHECK_TAIL@
}

/// Builds [`apo_check_script_of`].
pub fn apo_check_script(device_name: &str) -> (r: String)
    ensures
        r@ == apo_check_script_of(device_name@),
{
    let mut r = APO_CHECK_HEAD.to_owned();
    r.append(device_name);
    r.append(APO_CHECK_TAIL);
    r
}

/// The script that prints the id of the endpoint matching a device name.
pub open spec fn endpoint_guid_script_of(device_name: Seq<char>) -> Seq<char> {
    ENDPOINT_SEARCH_HEAD@ + device_name + ENDPOINT_SEARCH_TAIL@
}

/// Builds [`endpoint_guid_script_of`].
pub fn endpoint_guid_script(device_name: &str) -> (r: String)
    ensures
        r@ == endpoint_guid_script_of(device_name@),
{
    let mut r = ENDPOINT_SEARCH_HEAD.to_owned();
    r.append(device_name);
    r.append(ENDPOINT_SEARCH_TAIL);
    r
}

/// The elevated script that registers the audio processing object and attaches it to an endpoint, then restarts the audio service.
pub open spec fn apo_install_script_of(dll_path: Seq<char>, guid: Seq<char>) -> Seq<char> {
    APO_INSTALL_HEAD@ + dll_path + APO_INSTALL_MIDDLE@ + guid + APO_INSTALL_TAIL@
}

/// Builds [`apo_install_script_of`].
pub fn apo_install_script(dll_path: &str, guid: &str) -> (r: String)
    ensures
        r@ == apo_install_script_of(dll_path@, guid@),
{
    let mut r = APO_INSTALL_HEAD.to_owned();
    r.append(dll_path);
    r.append(APO_INSTALL_MIDDLE);
    r.append(guid);
    r.append(APO_INSTALL_TAIL);
    r
}

/// The audio processing object is installed: the check script's output,
/// trimmed, is exactly `INSTALLED`.
pub open spec fn apo_installed_of(output: Seq<char>) -> bool {
    trim_both(output, trim_pred(TrimSet::WhiteSpace)) == "INSTALLED"@
}

/// Reads the check script's output (see [`apo_installed_of`]).
pub fn apo_installed(output: &str) -> (r: bool)
    ensures
        r == apo_installed_of(output@),
{
    let c = chars_of(output);
    let t = trim(&c, TrimSet::WhiteSpace);
    let want = chars_of("INSTALLED");
    if t.len() != want.len() {
        return false;
    }
    let mut k: usize = 0;
    while k < t.len()
        invariant
            k <= t.len(),
            t.len() == want.len(),
            t@ == trim_both(output@, trim_pred(TrimSet::WhiteSpace)),
            want@ == "INSTALLED"@,
            forall|j: int| 0 <= j < k ==> t@[j] == want@[j],
        decreases t.len() - k,
    {
        if t[k] != want[k] {
            return false;
        }
        k += 1;
    }
    assert(t@ =~= want@);
    true
}

/// The endpoint id the search script printed: its trimmed output, when that
/// is an id in braces.
pub open spec fn endpoint_guid_of(output: Seq<char>) -> Option<Seq<char>> {
    let t = trim_both(output, trim_pred(TrimSet::WhiteSpace));
    if t.len() > 0 && starts_with(t, seq!['{']) {
        Some(t)
    } else {
        None
    }
}

/// Reads the search script's output (see [`endpoint_guid_of`]); `None` is
/// reported as "Matching sound card endpoint not found".
pub fn endpoint_guid_from_output(output: &str) -> (r: Option<String>)
    ensures
        match r {
            Some(g) => endpoint_guid_of(output@) == Some(g@),
            None => endpoint_guid_of(output@) is None,
        },
{
    let c = chars_of(output);
    let t = trim(&c, TrimSet::WhiteSpace);
    let brace = vec!['{'];
    assert(brace@ =~= seq!['{']);
    if t.len() > 0 && has_prefix(&t, &brace) {
        Some(string_of(&t))
    } else {
        None
    }
}

/// A path with every `/` turned into `\`.
pub open spec fn windows_path_of(p: Seq<char>) -> Seq<char> {
    p.map_values(|c: char| if c == '/' { '\\' } else { c })
}

/// Builds [`windows_path_of`].
pub fn windows_path(p: &str) -> (r: String)
    ensures
        r@ == windows_path_of(p@),
{
    let c = chars_of(p);
    let mut out: Vec<char> = Vec::new();
    let mut k: usize = 0;
    while k < c.len()
        invariant
            k <= c.len(),
            c@ == p@,
            out@ == windows_path_of(c@.take(k as int)),
        decreases c.len() - k,
    {
        let ch = if c[k] == '/' { '\\' } else { c[k] };
        out.push(ch);
        assert(windows_path_of(c@.take(k + 1)) =~= windows_path_of(c@.take(k as int)).push(ch));
        k += 1;
    }
    assert(c@.take(c.len() as int) =~= c@);
    string_of(&out)
}

/// The arguments PowerShell is started with, elevated, to run the install
/// script saved at `script_path`.
pub open spec fn elevated_install_args_of(script_path: Seq<char>) -> Seq<char> {
    "-NoProfile -NonInteractive -WindowStyle Hidden -ExecutionPolicy Bypass -File \""@ + script_path
        + "\""@
}

/// Builds [`elevated_install_args_of`].
pub fn elevated_install_args(script_path: &str) -> (r: String)
    ensures
        r@ == elevated_install_args_of(script_path@),
{
    let mut r = "-NoProfile -NonInteractive -WindowStyle Hidden -ExecutionPolicy Bypass -File \"".to_owned();
    r.append(script_path);
    r.append("\"");
    r
}

} // verus!
