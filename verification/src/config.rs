//! The static configuration a provisioning transaction materializes: the
//! EULA acceptance file, the server properties file, and the launch
//! arguments handed to the JVM.

use vstd::prelude::*;
use vstd::string::*;
use crate::text::dec_str;

verus! {

/// The content of the EULA acceptance file.
pub open spec fn eula_content_spec() -> Seq<char> {
    "# By changing the setting below to TRUE you are indicating your\n# agreement to our EULA (https://aka.ms/MinecraftEULA).\neula=true\n"@
}

pub fn eula_content() -> (r: &'static str)
    ensures
        r@ == eula_content_spec(),
{
    "# By changing the setting below to TRUE you are indicating your\n# agreement to our EULA (https://aka.ms/MinecraftEULA).\neula=true\n"
}

/// The content of the server properties file: fixed settings around the
/// caller-chosen port and message of the day, one `key=value` per line.
pub open spec fn server_properties_spec(port: u16, motd: Seq<char>) -> Seq<char> {
    "enable-jmx-monitoring=false\nserver-port="@ + dec_str(port as nat)
        + "\nserver-ip=\nmotd="@ + motd
        + "\nenable-command-block=false\nonline-mode=true\nlevel-name=world\ngamemode=survival\ndifficulty=easy\nmax-players=20\nview-distance=10\nsimulation-distance=10\nspawn-protection=16\nsync-chunk-writes=true\nenable-rcon=false\nenable-query=false\nenforce-secure-profile=true\nwhite-list=false\npvp=true\nallow-flight=false\ngenerate-structures=true\nlevel-seed=\nallow-nether=true\nspawn-animals=true\nspawn-monsters=true\nspawn-npcs=true\nuse-native-transport=true\n"@
}

pub fn server_properties_content(port: u16, motd: &str) -> (r: String)
    ensures
        r@ == server_properties_spec(port, motd@),
{
    let mut s = ("enable-jmx-monitoring=false\nserver-port=").to_owned();
    let port_s = crate::text::u64_to_dec(port as u64);
    s.append(port_s.as_str());
    s.append("\nserver-ip=\nmotd=");
    s.append(motd);
    s.append(
        "\nenable-command-block=false\nonline-mode=true\nlevel-name=world\ngamemode=survival\ndifficulty=easy\nmax-players=20\nview-distance=10\nsimulation-distance=10\nspawn-protection=16\nsync-chunk-writes=true\nenable-rcon=false\nenable-query=false\nenforce-secure-profile=true\nwhite-list=false\npvp=true\nallow-flight=false\ngenerate-structures=true\nlevel-seed=\nallow-nether=true\nspawn-animals=true\nspawn-monsters=true\nspawn-npcs=true\nuse-native-transport=true\n",
    );
    proof {
        assert(s@ =~= server_properties_spec(port, motd@));
    }
    s
}

/// The launch arguments for the server JVM: heap sizes from the requested
/// RAM, a fixed set of tuning flags, and the archive to run.
pub open spec fn java_args_spec(ram_mb: u32, jar: Seq<char>) -> Seq<Seq<char>> {
    seq![
        "-Xmx"@ + dec_str(ram_mb as nat) + "M"@,
        "-Xms"@ + dec_str(ram_mb as nat) + "M"@,
        "-XX:+UseG1GC"@,
        "-XX:+ParallelRefProcEnabled"@,
        "-XX:MaxGCPauseMillis=200"@,
        "-XX:+UnlockExperimentalVMOptions"@,
        "-XX:+DisableExplicitGC"@,
        "-XX:+AlwaysPreTouch"@,
        "-XX:G1NewSizePercent=30"@,
        "-XX:G1MaxNewSizePercent=40"@,
        "-XX:G1HeapRegionSize=8M"@,
        "-XX:G1ReservePercent=20"@,
        "-XX:G1HeapWastePercent=5"@,
        "-XX:G1MixedGCCountTarget=4"@,
        "-XX:InitiatingHeapOccupancyPercent=15"@,
        "-XX:G1MixedGCLiveThresholdPercent=90"@,
        "-XX:G1RSetUpdatingPauseTimePercent=5"@,
        "-XX:SurvivorRatio=32"@,
        "-XX:+PerfDisableSharedMem"@,
        "-XX:MaxTenuringThreshold=1"@,
        "-Daikars.new.flags=true"@,
        "-Dusing.aikars.flags=https://mcutils.com"@,
        "-jar"@,
        jar,
        "nogui"@,
    ]
}

pub fn build_java_args(ram_mb: u32, jar_path: &str) -> (r: Vec<String>)
    ensures
        r.deep_view() == java_args_spec(ram_mb, jar_path@),
{
    let mut args: Vec<String> = Vec::new();
    let mut xmx = ("-Xmx").to_owned();
    let ram_s = crate::text::u64_to_dec(ram_mb as u64);
    xmx.append(ram_s.as_str());
    xmx.append("M");
    args.push(xmx);
    let mut xms = ("-Xms").to_owned();
    xms.append(ram_s.as_str());
    xms.append("M");
    args.push(xms);
    args.push(("-XX:+UseG1GC").to_owned());
    args.push(("-XX:+ParallelRefProcEnabled").to_owned());
    args.push(("-XX:MaxGCPauseMillis=200").to_owned());
    args.push(("-XX:+UnlockExperimentalVMOptions").to_owned());
    args.push(("-XX:+DisableExplicitGC").to_owned());
    args.push(("-XX:+AlwaysPreTouch").to_owned());
    args.push(("-XX:G1NewSizePercent=30").to_owned());
    args.push(("-XX:G1MaxNewSizePercent=40").to_owned());
    args.push(("-XX:G1HeapRegionSize=8M").to_owned());
    args.push(("-XX:G1ReservePercent=20").to_owned());
    args.push(("-XX:G1HeapWastePercent=5").to_owned());
    args.push(("-XX:G1MixedGCCountTarget=4").to_owned());
    args.push(("-XX:InitiatingHeapOccupancyPercent=15").to_owned());
    args.push(("-XX:G1MixedGCLiveThresholdPercent=90").to_owned());
    args.push(("-XX:G1RSetUpdatingPauseTimePercent=5").to_owned());
    args.push(("-XX:SurvivorRatio=32").to_owned());
    args.push(("-XX:+PerfDisableSharedMem").to_owned());
    args.push(("-XX:MaxTenuringThreshold=1").to_owned());
    args.push(("-Daikars.new.flags=true").to_owned());
    args.push(("-Dusing.aikars.flags=https://mcutils.com").to_owned());
    args.push(("-jar").to_owned());
    args.push(jar_path.to_owned());
    args.push(("nogui").to_owned());
    proof {
        assert(args.deep_view() =~~= java_args_spec(ram_mb, jar_path@));
    }
    args
}

} // verus!
