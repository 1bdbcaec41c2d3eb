//! Windows network tuning and DNS switching: the PowerShell scripts the
//! gateway runs with administrator rights, the command that elevates them,
//! and how the outcome is reported.
use vstd::prelude::*;
use crate::gateway_config::GatewayError;

verus! {

/// A script to run with administrator rights: its text, the name of the
/// temporary file it is written to, and the message reported when the user
/// declines the elevation prompt.
pub struct ElevatedScript {
    pub script: String,
    pub temp_file_name: String,
    pub denied_message: String,
}

/// The TCP no-lag script: network throttling off, Nagle's algorithm off and
/// immediate acknowledgements on every interface, receive-window
/// auto-tuning normal.
pub open spec fn tcp_no_lag_script() -> Seq<char> {
    "\n# 1. 윈도우 네트워크 대역폭 쓰로틀링 해제 및 반응성 극대화\n$sysProfile = 'HKLM:\\SOFTWARE\\Microsoft\\Windows NT\\CurrentVersion\\Multimedia\\SystemProfile'\nSet-ItemProperty -Path $sysProfile -Name 'NetworkThrottlingIndex' -Value 0xFFFFFFFF -Type DWord -Force\nSet-ItemProperty -Path $sysProfile -Name 'SystemResponsiveness' -Value 0 -Type DWord -Force\n\n# 2. 모든 활성 네트워크 인터페이스에 Nagle 알고리즘 해제 & 즉시 응답(TcpAckFrequency) 적용\n$interfacesPath = 'HKLM:\\SYSTEM\\CurrentControlSet\\Services\\Tcpip\\Parameters\\Interfaces'\nGet-ChildItem $interfacesPath | ForEach-Object {\n    $path = $_.PSPath\n    Set-ItemProperty -Path $path -Name 'TcpAckFrequency' -Value 1 -Type DWord -Force -ErrorAction SilentlyContinue\n    Set-ItemProperty -Path $path -Name 'TCPNoDelay' -Value 1 -Type DWord -Force -ErrorAction SilentlyContinue\n    Set-ItemProperty -Path $path -Name 'TcpDelAckTicks' -Value 0 -Type DWord -Force -ErrorAction SilentlyContinue\n}\n\n# 3. TCP 수신 버퍼 윈도우 자동 튜닝\nnetsh int tcp set global autotuninglevel=normal | Out-Null\n"@
}

/// The script that restores Windows' default network settings.
pub open spec fn tcp_default_script() -> Seq<char> {
    "\n$sysProfile = 'HKLM:\\SOFTWARE\\Microsoft\\Windows NT\\CurrentVersion\\Multimedia\\SystemProfile'\nSet-ItemProperty -Path $sysProfile -Name 'NetworkThrottlingIndex' -Value 10 -Type DWord -Force\nSet-ItemProperty -Path $sysProfile -Name 'SystemResponsiveness' -Value 20 -Type DWord -Force\n\n$interfacesPath = 'HKLM:\\SYSTEM\\CurrentControlSet\\Services\\Tcpip\\Parameters\\Interfaces'\nGet-ChildItem $interfacesPath | ForEach-Object {\n    $path = $_.PSPath\n    Remove-ItemProperty -Path $path -Name 'TcpAckFrequency' -Force -ErrorAction SilentlyContinue\n    Remove-ItemProperty -Path $path -Name 'TCPNoDelay' -Force -ErrorAction SilentlyContinue\n    Remove-ItemProperty -Path $path -Name 'TcpDelAckTicks' -Force -ErrorAction SilentlyContinue\n}\n"@
}

/// The script that points every active adapter at the local smart DNS,
/// with Cloudflare as the second server.
pub open spec fn smart_dns_script() -> Seq<char> {
    "\nGet-NetAdapter | Where-Object { $_.Status -eq 'Up' } | ForEach-Object {\n    Set-DnsClientServerAddress -InterfaceIndex $_.ifIndex -ServerAddresses ('127.0.0.1', '1.1.1.1') -ErrorAction SilentlyContinue\n}\n"@
}

/// The script that gives every active adapter its DHCP-assigned DNS back.
pub open spec fn reset_dns_script() -> Seq<char> {
    "\nGet-NetAdapter | Where-Object { $_.Status -eq 'Up' } | ForEach-Object {\n    Set-DnsClientServerAddress -InterfaceIndex $_.ifIndex -ResetServerAddresses -ErrorAction SilentlyContinue\n}\n"@
}

/// `apply_tcp_no_lag`: the elevated script that applies the tuning.
pub fn apply_tcp_no_lag() -> (r: ElevatedScript)
    ensures
        r.script@ == tcp_no_lag_script(),
        r.temp_file_name@ == "vgate_net_opt.ps1"@,
        r.denied_message@ == "네트워크 최적화 적용을 위한 관리자 권한이 승인되지 않았습니다."@,
{
    ElevatedScript {
        script: "\n# 1. 윈도우 네트워크 대역폭 쓰로틀링 해제 및 반응성 극대화\n$sysProfile = 'HKLM:\\SOFTWARE\\Microsoft\\Windows NT\\CurrentVersion\\Multimedia\\SystemProfile'\nSet-ItemProperty -Path $sysProfile -Name 'NetworkThrottlingIndex' -Value 0xFFFFFFFF -Type DWord -Force\nSet-ItemProperty -Path $sysProfile -Name 'SystemResponsiveness' -Value 0 -Type DWord -Force\n\n# 2. 모든 활성 네트워크 인터페이스에 Nagle 알고리즘 해제 & 즉시 응답(TcpAckFrequency) 적용\n$interfacesPath = 'HKLM:\\SYSTEM\\CurrentControlSet\\Services\\Tcpip\\Parameters\\Interfaces'\nGet-ChildItem $interfacesPath | ForEach-Object {\n    $path = $_.PSPath\n    Set-ItemProperty -Path $path -Name 'TcpAckFrequency' -Value 1 -Type DWord -Force -ErrorAction SilentlyContinue\n    Set-ItemProperty -Path $path -Name 'TCPNoDelay' -Value 1 -Type DWord -Force -ErrorAction SilentlyContinue\n    Set-ItemProperty -Path $path -Name 'TcpDelAckTicks' -Value 0 -Type DWord -Force -ErrorAction SilentlyContinue\n}\n\n# 3. TCP 수신 버퍼 윈도우 자동 튜닝\nnetsh int tcp set global autotuninglevel=normal | Out-Null\n".to_owned(),
        temp_file_name: "vgate_net_opt.ps1".to_owned(),
        denied_message: "네트워크 최적화 적용을 위한 관리자 권한이 승인되지 않았습니다.".to_owned(),
    }
}

/// `revert_tcp_no_lag`: the elevated script that restores the defaults.
pub fn revert_tcp_no_lag() -> (r: ElevatedScript)
    ensures
        r.script@ == tcp_default_script(),
        r.temp_file_name@ == "vgate_net_opt.ps1"@,
        r.denied_message@ == "네트워크 최적화 적용을 위한 관리자 권한이 승인되지 않았습니다."@,
{
    ElevatedScript {
        script: "\n$sysProfile = 'HKLM:\\SOFTWARE\\Microsoft\\Windows NT\\CurrentVersion\\Multimedia\\SystemProfile'\nSet-ItemProperty -Path $sysProfile -Name 'NetworkThrottlingIndex' -Value 10 -Type DWord -Force\nSet-ItemProperty -Path $sysProfile -Name 'SystemResponsiveness' -Value 20 -Type DWord -Force\n\n$interfacesPath = 'HKLM:\\SYSTEM\\CurrentControlSet\\Services\\Tcpip\\Parameters\\Interfaces'\nGet-ChildItem $interfacesPath | ForEach-Object {\n    $path = $_.PSPath\n    Remove-ItemProperty -Path $path -Name 'TcpAckFrequency' -Force -ErrorAction SilentlyContinue\n    Remove-ItemProperty -Path $path -Name 'TCPNoDelay' -Force -ErrorAction SilentlyContinue\n    Remove-ItemProperty -Path $path -Name 'TcpDelAckTicks' -Force -ErrorAction SilentlyContinue\n}\n".to_owned(),
        temp_file_name: "vgate_net_opt.ps1".to_owned(),
        denied_message: "네트워크 최적화 적용을 위한 관리자 권한이 승인되지 않았습니다.".to_owned(),
    }
}

/// `set_system_dns_smart`: the elevated script that switches to the smart
/// DNS.
pub fn set_system_dns_smart() -> (r: ElevatedScript)
    ensures
        r.script@ == smart_dns_script(),
        r.temp_file_name@ == "vgate_dns_opt.ps1"@,
        r.denied_message@ == "DNS 설정을 위한 관리자 권한이 승인되지 않았습니다."@,
{
    ElevatedScript {
        script: "\nGet-NetAdapter | Where-Object { $_.Status -eq 'Up' } | ForEach-Object {\n    Set-DnsClientServerAddress -InterfaceIndex $_.ifIndex -ServerAddresses ('127.0.0.1', '1.1.1.1') -ErrorAction SilentlyContinue\n}\n".to_owned(),
        temp_file_name: "vgate_dns_opt.ps1".to_owned(),
        denied_message: "DNS 설정을 위한 관리자 권한이 승인되지 않았습니다.".to_owned(),
    }
}

/// `reset_system_dns`: the elevated script that restores DHCP DNS.
pub fn reset_system_dns() -> (r: ElevatedScript)
    ensures
        r.script@ == reset_dns_script(),
        r.temp_file_name@ == "vgate_dns_opt.ps1"@,
        r.denied_message@ == "DNS 설정을 위한 관리자 권한이 승인되지 않았습니다."@,
{
    ElevatedScript {
        script: "\nGet-NetAdapter | Where-Object { $_.Status -eq 'Up' } | ForEach-Object {\n    Set-DnsClientServerAddress -InterfaceIndex $_.ifIndex -ResetServerAddresses -ErrorAction SilentlyContinue\n}\n".to_owned(),
        temp_file_name: "vgate_dns_opt.ps1".to_owned(),
        denied_message: "DNS 설정을 위한 관리자 권한이 승인되지 않았습니다.".to_owned(),
    }
}

/// The PowerShell command that runs the script at `script_path` elevated
/// and hidden, waits for it, then deletes the file.
pub open spec fn elevation_command_of(script_path: Seq<char>) -> Seq<char> {
    "Start-Process powershell -ArgumentList '-NoProfile -ExecutionPolicy Bypass -File \""@ + script_path
        + "\"' -Verb RunAs -WindowStyle Hidden -Wait; Remove-Item -Path \""@ + script_path + "\" -Force"@
}

/// Builds [`elevation_command_of`].
pub fn elevation_command(script_path: &str) -> (r: String)
    ensures
        r@ == elevation_command_of(script_path@),
{
    let mut r = "Start-Process powershell -ArgumentList '-NoProfile -ExecutionPolicy Bypass -File \"".to_owned();
    r.append(script_path);
    r.append("\"' -Verb RunAs -WindowStyle Hidden -Wait; Remove-Item -Path \"");
    r.append(script_path);
    r.append("\" -Force");
    r
}

/// Prefix of the error reported when PowerShell could not be started.
pub open spec fn launch_failed_prefix() -> Seq<char> {
    "관리자 권한 실행 실패: "@
}

/// How an elevated run ends: PowerShell could not be started (with the
/// system's message), the user declined, or it ran.
pub fn elevation_outcome(launched: Result<bool, String>, denied_message: String) -> (r: Result<(), GatewayError>)
    ensures
        launched matches Ok(true) <==> r is Ok,
        launched matches Ok(false) ==> (r matches Err(GatewayError::ConfigError(m)) && m == denied_message),
        launched matches Err(text) ==> (r matches Err(GatewayError::ConfigError(m)) && m@
            == launch_failed_prefix() + text@),
{
    match launched {
        Ok(true) => Ok(()),
        Ok(false) => Err(GatewayError::ConfigError(denied_message)),
        Err(text) => {
            let mut m = "관리자 권한 실행 실패: ".to_owned();
            m.append(text.as_str());
            Err(GatewayError::ConfigError(m))
        },
    }
}

} // verus!
