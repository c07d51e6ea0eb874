//! Serverless deployments: provider catalogue, deployment configurations checked
//! against their provider's limits, packages, scaling policies, invocation counters and
//! deployment templates.

use vstd::prelude::*;
use crate::audit::pair_views;
use crate::clock::{new_uuid, now_timestamp, MAX_TIMESTAMP};
use crate::error::AppError;
use crate::keyed::{map_of, restrict_where};
use crate::rbac::lists_map;
use crate::store::{filter_pred, record_entries, Record, RecordFilter, Store};
use crate::text::{
    clone_pairs, clone_strings, concat3, join_lines, nat_decimal, nat_hex, push_str, push_u64_decimal, push_u64_hex,
    replace_char, replace_chars, seq_contains, str_eq, str_to_string, string_views, strings_contain,
};

verus! {

/// A deployment configuration.
#[derive(Debug)]
pub struct ServerlessConfig {
    pub id: String,
    pub name: String,
    pub provider: String,
    pub region: String,
    pub runtime: String,
    pub memory_mb: u32,
    pub timeout_seconds: u32,
    pub min_instances: u32,
    pub max_instances: u32,
    pub environment_variables: Vec<(String, String)>,
    pub is_active: bool,
    pub created_at: i64,
}

/// The value of a configuration.
pub struct ConfigView {
    pub id: Seq<char>,
    pub name: Seq<char>,
    pub provider: Seq<char>,
    pub region: Seq<char>,
    pub runtime: Seq<char>,
    pub memory_mb: u32,
    pub timeout_seconds: u32,
    pub min_instances: u32,
    pub max_instances: u32,
    pub environment_variables: Seq<(Seq<char>, Seq<char>)>,
    pub is_active: bool,
    pub created_at: i64,
}

impl View for ServerlessConfig {
    type V = ConfigView;

    open spec fn view(&self) -> ConfigView {
        ConfigView {
            id: self.id@,
            name: self.name@,
            provider: self.provider@,
            region: self.region@,
            runtime: self.runtime@,
            memory_mb: self.memory_mb,
            timeout_seconds: self.timeout_seconds,
            min_instances: self.min_instances,
            max_instances: self.max_instances,
            environment_variables: pair_views(self.environment_variables@),
            is_active: self.is_active,
            created_at: self.created_at,
        }
    }
}

impl Record for ServerlessConfig {
    open spec fn key_of(v: ConfigView) -> Seq<char> {
        v.id
    }

    fn key(&self) -> (r: &str) {
        self.id.as_str()
    }

    fn duplicate(&self) -> (r: Self) {
        ServerlessConfig {
            id: self.id.clone(),
            name: self.name.clone(),
            provider: self.provider.clone(),
            region: self.region.clone(),
            runtime: self.runtime.clone(),
            memory_mb: self.memory_mb,
            timeout_seconds: self.timeout_seconds,
            min_instances: self.min_instances,
            max_instances: self.max_instances,
            environment_variables: clone_pairs(&self.environment_variables),
            is_active: self.is_active,
            created_at: self.created_at,
        }
    }
}

/// A package of code for a configuration.
#[derive(Debug)]
pub struct DeploymentPackage {
    pub id: String,
    pub config_id: String,
    pub version: String,
    pub package_size_bytes: u64,
    pub checksum: String,
    pub deployed_at: Option<i64>,
    pub status: String,
}

/// The value of a package.
pub struct PackageView {
    pub id: Seq<char>,
    pub config_id: Seq<char>,
    pub version: Seq<char>,
    pub package_size_bytes: u64,
    pub checksum: Seq<char>,
    pub deployed_at: Option<i64>,
    pub status: Seq<char>,
}

impl View for DeploymentPackage {
    type V = PackageView;

    open spec fn view(&self) -> PackageView {
        PackageView {
            id: self.id@,
            config_id: self.config_id@,
            version: self.version@,
            package_size_bytes: self.package_size_bytes,
            checksum: self.checksum@,
            deployed_at: self.deployed_at,
            status: self.status@,
        }
    }
}

impl Record for DeploymentPackage {
    open spec fn key_of(v: PackageView) -> Seq<char> {
        v.id
    }

    fn key(&self) -> (r: &str) {
        self.id.as_str()
    }

    fn duplicate(&self) -> (r: Self) {
        DeploymentPackage {
            id: self.id.clone(),
            config_id: self.config_id.clone(),
            version: self.version.clone(),
            package_size_bytes: self.package_size_bytes,
            checksum: self.checksum.clone(),
            deployed_at: self.deployed_at,
            status: self.status.clone(),
        }
    }
}

/// A scaling policy. Its threshold and factors are floating-point numbers, held here by
/// their IEEE-754 bit patterns (`f64::to_bits`); the library only carries them.
#[derive(Debug)]
pub struct ScalingPolicy {
    pub id: String,
    pub config_id: String,
    pub trigger_type: String,
    pub threshold_bits: u64,
    pub scale_up_factor_bits: u64,
    pub scale_down_factor_bits: u64,
    pub cooldown_seconds: u32,
}

/// The value of a policy.
pub struct PolicyView {
    pub id: Seq<char>,
    pub config_id: Seq<char>,
    pub trigger_type: Seq<char>,
    pub threshold_bits: u64,
    pub scale_up_factor_bits: u64,
    pub scale_down_factor_bits: u64,
    pub cooldown_seconds: u32,
}

impl View for ScalingPolicy {
    type V = PolicyView;

    open spec fn view(&self) -> PolicyView {
        PolicyView {
            id: self.id@,
            config_id: self.config_id@,
            trigger_type: self.trigger_type@,
            threshold_bits: self.threshold_bits,
            scale_up_factor_bits: self.scale_up_factor_bits,
            scale_down_factor_bits: self.scale_down_factor_bits,
            cooldown_seconds: self.cooldown_seconds,
        }
    }
}

impl Record for ScalingPolicy {
    open spec fn key_of(v: PolicyView) -> Seq<char> {
        v.id
    }

    fn key(&self) -> (r: &str) {
        self.id.as_str()
    }

    fn duplicate(&self) -> (r: Self) {
        ScalingPolicy {
            id: self.id.clone(),
            config_id: self.config_id.clone(),
            trigger_type: self.trigger_type.clone(),
            threshold_bits: self.threshold_bits,
            scale_up_factor_bits: self.scale_up_factor_bits,
            scale_down_factor_bits: self.scale_down_factor_bits,
            cooldown_seconds: self.cooldown_seconds,
        }
    }
}

/// Counts over the deployments. The response time and error rate are fixed estimates,
/// held by their `f64` bit patterns: 150.0 milliseconds and 0.01.
#[derive(Debug)]
pub struct DeploymentStats {
    pub total_deployments: usize,
    pub active_deployments: usize,
    pub total_invocations: u64,
    pub avg_response_time_ms_bits: u64,
    pub error_rate_bits: u64,
}

/// The bits of the `f64` 150.0.
pub const AVG_RESPONSE_TIME_MS_BITS: u64 = 0x4062_C000_0000_0000;

/// The bits of the `f64` 0.01.
pub const ERROR_RATE_BITS: u64 = 0x3F84_7AE1_47AE_147B;

/// A serverless provider and its limits.
#[derive(Debug)]
pub struct ServerlessProvider {
    pub name: String,
    pub supported_regions: Vec<String>,
    pub supported_runtimes: Vec<String>,
    pub max_memory_mb: u32,
    pub max_timeout_seconds: u32,
    pub pricing_url: String,
}

/// The value of a provider.
pub struct ProviderView {
    pub name: Seq<char>,
    pub supported_regions: Seq<Seq<char>>,
    pub supported_runtimes: Seq<Seq<char>>,
    pub max_memory_mb: u32,
    pub max_timeout_seconds: u32,
    pub pricing_url: Seq<char>,
}

impl View for ServerlessProvider {
    type V = ProviderView;

    open spec fn view(&self) -> ProviderView {
        ProviderView {
            name: self.name@,
            supported_regions: string_views(self.supported_regions@),
            supported_runtimes: string_views(self.supported_runtimes@),
            max_memory_mb: self.max_memory_mb,
            max_timeout_seconds: self.max_timeout_seconds,
            pricing_url: self.pricing_url@,
        }
    }
}

impl Record for ServerlessProvider {
    open spec fn key_of(v: ProviderView) -> Seq<char> {
        v.name
    }

    fn key(&self) -> (r: &str) {
        self.name.as_str()
    }

    fn duplicate(&self) -> (r: Self) {
        ServerlessProvider {
            name: self.name.clone(),
            supported_regions: clone_strings(&self.supported_regions),
            supported_runtimes: clone_strings(&self.supported_runtimes),
            max_memory_mb: self.max_memory_mb,
            max_timeout_seconds: self.max_timeout_seconds,
            pricing_url: self.pricing_url.clone(),
        }
    }
}

/// How many invocations a configuration had.
pub struct InvocationCount {
    pub config_id: String,
    pub count: u64,
}

impl View for InvocationCount {
    type V = (Seq<char>, u64);

    open spec fn view(&self) -> (Seq<char>, u64) {
        (self.config_id@, self.count)
    }
}

impl Record for InvocationCount {
    open spec fn key_of(v: (Seq<char>, u64)) -> Seq<char> {
        v.0
    }

    fn key(&self) -> (r: &str) {
        self.config_id.as_str()
    }

    fn duplicate(&self) -> (r: Self) {
        InvocationCount { config_id: self.config_id.clone(), count: self.count }
    }
}

/// The AWS provider.
pub open spec fn aws_provider() -> ProviderView {
    ProviderView {
        name: "aws"@,
        supported_regions: seq!["us-east-1"@, "us-west-2"@, "eu-west-1"@, "ap-northeast-1"@],
        supported_runtimes: seq![
            "python3.9"@, "python3.10"@, "nodejs18.x"@, "nodejs20.x"@, "java11"@,
            "java17"@, "dotnet6"@, "dotnet8"@, "go1.x"@, "ruby3.2"@,
        ],
        max_memory_mb: 10240,
        max_timeout_seconds: 900,
        pricing_url: "https://aws.amazon.com/lambda/pricing/"@,
    }
}

/// The Azure provider.
pub open spec fn azure_provider() -> ProviderView {
    ProviderView {
        name: "azure"@,
        supported_regions: seq!["eastus"@, "westus2"@, "westeurope"@, "southeastasia"@],
        supported_runtimes: seq!["python"@, "node"@, "java"@, "dotnet"@, "powershell"@],
        max_memory_mb: 14336,
        max_timeout_seconds: 600,
        pricing_url: "https://azure.microsoft.com/pricing/details/functions/"@,
    }
}

/// The Google Cloud provider.
pub open spec fn gcp_provider() -> ProviderView {
    ProviderView {
        name: "gcp"@,
        supported_regions: seq!["us-central1"@, "us-east1"@, "europe-west1"@, "asia-east1"@],
        supported_runtimes: seq![
            "python39"@, "python310"@, "nodejs18"@, "nodejs20"@, "java11"@, "java17"@, "go121"@,
            "ruby32"@,
        ],
        max_memory_mb: 32768,
        max_timeout_seconds: 3600,
        pricing_url: "https://cloud.google.com/functions/pricing"@,
    }
}

/// Strings made of the given literals, in order.
fn strings_of(items: &[&str]) -> (r: Vec<String>)
    ensures
        string_views(r@) == items@.map_values(|s: &str| s@),
{
    let mut out: Vec<String> = Vec::new();
    let mut i: usize = 0;
    while i < items.len()
        invariant
            i <= items@.len(),
            string_views(out@) == items@.map_values(|s: &str| s@).take(i as int),
        decreases items.len() - i,
    {
        let ghost before = string_views(out@);
        out.push(str_to_string(items[i]));
        proof {
            assert(string_views(out@) =~= before.push(items@[i as int]@));
            assert(items@.map_values(|s: &str| s@).take(i + 1) =~= items@.map_values(|s: &str| s@).take(i as int).push(items@[i as int]@));
        }
        i = i + 1;
    }
    assert(items@.map_values(|s: &str| s@).take(items@.len() as int) =~= items@.map_values(|s: &str| s@));
    out
}

/// Packages and policies of one configuration.
pub struct OfConfig<'a> {
    pub config_id: &'a str,
}

impl<'a> RecordFilter<DeploymentPackage> for OfConfig<'a> {
    open spec fn holds(&self, v: PackageView) -> bool {
        v.config_id == self.config_id@
    }

    fn test(&self, r: &DeploymentPackage) -> (b: bool) {
        str_eq(r.config_id.as_str(), self.config_id)
    }
}

impl<'a> RecordFilter<ScalingPolicy> for OfConfig<'a> {
    open spec fn holds(&self, v: PolicyView) -> bool {
        v.config_id == self.config_id@
    }

    fn test(&self, r: &ScalingPolicy) -> (b: bool) {
        str_eq(r.config_id.as_str(), self.config_id)
    }
}

/// Deployed packages.
pub struct Deployed;

impl RecordFilter<DeploymentPackage> for Deployed {
    open spec fn holds(&self, v: PackageView) -> bool {
        v.status == "deployed"@
    }

    fn test(&self, r: &DeploymentPackage) -> (b: bool) {
        str_eq(r.status.as_str(), "deployed")
    }
}

/// The message of a missing configuration.
pub open spec fn config_not_found(id: Seq<char>) -> Seq<char> {
    "Config "@ + id + " not found"@
}

/// Environment variables as lines `prefix key mid value suffix`.
pub open spec fn env_lines(env: Seq<(Seq<char>, Seq<char>)>, prefix: Seq<char>, mid: Seq<char>, suffix: Seq<char>) -> Seq<Seq<char>> {
    env.map_values(|e: (Seq<char>, Seq<char>)| prefix + e.0 + mid + e.1 + suffix)
}

/// The `serverless.yml` template of a configuration.
pub open spec fn serverless_yml(c: ConfigView) -> Seq<char> {
    "service: "@ + c.name + "\n\nprovider:\n  name: "@ + c.provider + "\n  runtime: "@ + c.runtime + "\n  region: "@
        + c.region + "\n  memorySize: "@ + nat_decimal(c.memory_mb as nat) + "\n  timeout: "@
        + nat_decimal(c.timeout_seconds as nat)
        + "\n\nfunctions:\n  agent:\n    handler: handler.main\n    environment:\n"@
        + join_lines(env_lines(c.environment_variables, "      "@, ": "@, Seq::empty())) + "\n"@
}

/// The Terraform template of a configuration.
pub open spec fn terraform_tf(c: ConfigView) -> Seq<char> {
    "resource \"aws_lambda_function\" \""@ + replace_char(c.name, '-', '_') + "\" {\n  function_name = \""@ + c.name
        + "\"\n  runtime       = \""@ + c.runtime + "\"\n  memory_size   = "@ + nat_decimal(c.memory_mb as nat)
        + "\n  timeout       = "@ + nat_decimal(c.timeout_seconds as nat)
        + "\n  handler       = \"handler.main\"\n\n  environment {\n    variables = {\n"@
        + join_lines(env_lines(c.environment_variables, "      "@, " = \""@, "\""@)) + "\n    }\n  }\n}\n"@
}

/// The AWS SAM template of a configuration.
pub open spec fn sam_yaml(c: ConfigView) -> Seq<char> {
    "AWSTemplateFormatVersion: '2010-09-09'\nTransform: AWS::Serverless-2016-10-31\n\nResources:\n  "@
        + replace_char(c.name, '-', '_') + "Function:\n    Type: AWS::Serverless::Function\n    Properties:\n      FunctionName: "@
        + c.name + "\n      Runtime: "@ + c.runtime + "\n      MemorySize: "@ + nat_decimal(c.memory_mb as nat)
        + "\n      Timeout: "@ + nat_decimal(c.timeout_seconds as nat)
        + "\n      Handler: handler.main\n      Environment:\n        Variables:\n"@
        + join_lines(env_lines(c.environment_variables, "          "@, ": "@, Seq::empty())) + "\n"@
}

/// Appends the environment variables as lines joined by newlines.
fn push_env_lines(s: &mut String, env: &Vec<(String, String)>, prefix: &str, mid: &str, suffix: &str)
    ensures
        final(s)@ == old(s)@ + join_lines(env_lines(pair_views(env@), prefix@, mid@, suffix@)),
{
    let ghost lines = env_lines(pair_views(env@), prefix@, mid@, suffix@);
    let ghost s0 = s@;
    let mut i: usize = 0;
    assert(join_lines(lines.take(0)) =~= Seq::<char>::empty());
    assert(s@ =~= s0 + join_lines(lines.take(0)));
    while i < env.len()
        invariant
            i <= env@.len(),
            lines == env_lines(pair_views(env@), prefix@, mid@, suffix@),
            s@ == s0 + join_lines(lines.take(i as int)),
        decreases env.len() - i,
    {
        let ghost before = s@;
        if i > 0 {
            push_str(s, "\n");
        }
        let ghost after_nl = s@;
        push_str(s, prefix);
        push_str(s, env[i].0.as_str());
        push_str(s, mid);
        push_str(s, env[i].1.as_str());
        push_str(s, suffix);
        proof {
            let line = lines[i as int];
            assert(line == prefix@ + env@[i as int].0@ + mid@ + env@[i as int].1@ + suffix@);
            assert(s@ =~= after_nl + line);
            let t = lines.take(i + 1);
            assert(t.drop_last() =~= lines.take(i as int));
            assert(t.last() == line);
            if i == 0 {
                assert(t.len() == 1);
                assert(join_lines(t) == t[0]);
                assert(join_lines(lines.take(0)) =~= Seq::<char>::empty());
                assert(s@ =~= s0 + join_lines(t));
            } else {
                assert(join_lines(t) == join_lines(t.drop_last()) + "\n"@ + t.last());
                assert(s@ =~= s0 + join_lines(t));
            }
        }
        i = i + 1;
    }
    assert(lines.take(env@.len() as int) =~= lines);
}

/// The configurations, packages, policies, providers and invocation counters.
pub struct ServerlessManager {
    configs: Store<ServerlessConfig>,
    packages: Store<DeploymentPackage>,
    scaling_policies: Store<ScalingPolicy>,
    providers: Store<ServerlessProvider>,
    invocation_counts: Store<InvocationCount>,
}

impl ServerlessManager {
    /// The configurations, by id.
    pub closed spec fn configs_view(&self) -> Map<Seq<char>, ConfigView> {
        self.configs.view_map()
    }

    /// The packages, by id.
    pub closed spec fn packages_view(&self) -> Map<Seq<char>, PackageView> {
        self.packages.view_map()
    }

    /// The scaling policies, by id.
    pub closed spec fn policies_view(&self) -> Map<Seq<char>, PolicyView> {
        self.scaling_policies.view_map()
    }

    /// The providers, by name.
    pub closed spec fn providers_view(&self) -> Map<Seq<char>, ProviderView> {
        self.providers.view_map()
    }

    /// The invocation counters, by configuration id.
    pub closed spec fn counts_view(&self) -> Map<Seq<char>, u64> {
        self.invocation_counts.view_map().map_values(|c: (Seq<char>, u64)| c.1)
    }

    /// The invocation count of a configuration (zero when it has no counter).
    pub open spec fn count_of(&self, id: Seq<char>) -> u64 {
        if self.counts_view().dom().contains(id) {
            self.counts_view()[id]
        } else {
            0
        }
    }

    /// Each table holds one record per key.
    pub closed spec fn wf(&self) -> bool {
        &&& self.configs.wf()
        &&& self.packages.wf()
        &&& self.scaling_policies.wf()
        &&& self.providers.wf()
        &&& self.invocation_counts.wf()
    }

    /// A manager that knows the AWS, Azure and Google Cloud providers and nothing else.
    pub fn new() -> (r: Self)
        ensures
            r.wf(),
            r.providers_view() == map!["aws"@ => aws_provider(), "azure"@ => azure_provider(), "gcp"@ => gcp_provider()],
            r.configs_view() == Map::<Seq<char>, ConfigView>::empty(),
            r.packages_view() == Map::<Seq<char>, PackageView>::empty(),
            r.policies_view() == Map::<Seq<char>, PolicyView>::empty(),
            r.counts_view() == Map::<Seq<char>, u64>::empty(),
    {
        let mut manager = ServerlessManager {
            configs: Store::new(),
            packages: Store::new(),
            scaling_policies: Store::new(),
            providers: Store::new(),
            invocation_counts: Store::new(),
        };
        manager.initialize_providers();
        assert(manager.counts_view() =~= Map::<Seq<char>, u64>::empty());
        manager
    }

    fn initialize_providers(&mut self)
        requires
            old(self).wf(),
            old(self).providers_view() == Map::<Seq<char>, ProviderView>::empty(),
        ensures
            final(self).wf(),
            final(self).providers_view() == map!["aws"@ => aws_provider(), "azure"@ => azure_provider(), "gcp"@ => gcp_provider()],
            final(self).configs == old(self).configs,
            final(self).packages == old(self).packages,
            final(self).scaling_policies == old(self).scaling_policies,
            final(self).invocation_counts == old(self).invocation_counts,
    {
        let aws_regions: [&str; 4] = ["us-east-1", "us-west-2", "eu-west-1", "ap-northeast-1"];
        let aws_runtimes: [&str; 10] = [
            "python3.9", "python3.10", "nodejs18.x", "nodejs20.x", "java11", "java17", "dotnet6", "dotnet8",
            "go1.x", "ruby3.2",
        ];
        let aws = ServerlessProvider {
            name: str_to_string("aws"),
            supported_regions: strings_of(&aws_regions),
            supported_runtimes: strings_of(&aws_runtimes),
            max_memory_mb: 10240,
            max_timeout_seconds: 900,
            pricing_url: str_to_string("https://aws.amazon.com/lambda/pricing/"),
        };
        assert(aws_regions@.map_values(|s: &str| s@) =~= aws_provider().supported_regions);
        assert(aws_runtimes@.map_values(|s: &str| s@) =~= aws_provider().supported_runtimes);
        assert(aws@ == aws_provider());
        let azure_regions: [&str; 4] = ["eastus", "westus2", "westeurope", "southeastasia"];
        let azure_runtimes: [&str; 5] = ["python", "node", "java", "dotnet", "powershell"];
        let azure = ServerlessProvider {
            name: str_to_string("azure"),
            supported_regions: strings_of(&azure_regions),
            supported_runtimes: strings_of(&azure_runtimes),
            max_memory_mb: 14336,
            max_timeout_seconds: 600,
            pricing_url: str_to_string("https://azure.microsoft.com/pricing/details/functions/"),
        };
        assert(azure_regions@.map_values(|s: &str| s@) =~= azure_provider().supported_regions);
        assert(azure_runtimes@.map_values(|s: &str| s@) =~= azure_provider().supported_runtimes);
        assert(azure@ == azure_provider());
        let gcp_regions: [&str; 4] = ["us-central1", "us-east1", "europe-west1", "asia-east1"];
        let gcp_runtimes: [&str; 8] = ["python39", "python310", "nodejs18", "nodejs20", "java11", "java17", "go121", "ruby32"];
        let gcp = ServerlessProvider {
            name: str_to_string("gcp"),
            supported_regions: strings_of(&gcp_regions),
            supported_runtimes: strings_of(&gcp_runtimes),
            max_memory_mb: 32768,
            max_timeout_seconds: 3600,
            pricing_url: str_to_string("https://cloud.google.com/functions/pricing"),
        };
        assert(gcp_regions@.map_values(|s: &str| s@) =~= gcp_provider().supported_regions);
        assert(gcp_runtimes@.map_values(|s: &str| s@) =~= gcp_provider().supported_runtimes);
        assert(gcp@ == gcp_provider());
        self.providers.insert(aws);
        self.providers.insert(azure);
        self.providers.insert(gcp);
        assert(self.providers_view() =~= map!["aws"@ => aws_provider(), "azure"@ => azure_provider(), "gcp"@ => gcp_provider()]);
    }

    /// Adds a configuration under a fresh random id, active, with 0 to 100 instances, and
    /// a zero invocation counter; the provider must be known and allow the region, the
    /// runtime, the memory and the timeout.
    pub fn create_deployment_config(
        &mut self,
        name: String,
        provider: String,
        region: String,
        runtime: String,
        memory_mb: u32,
        timeout_seconds: u32,
        environment_variables: Vec<(String, String)>,
    ) -> (r: Result<String, AppError>)
        requires
            old(self).wf(),
        ensures
            final(self).wf(),
            final(self).providers_view() == old(self).providers_view(),
            final(self).packages_view() == old(self).packages_view(),
            final(self).policies_view() == old(self).policies_view(),
            ({
                let ps = old(self).providers_view();
                let p = ps[provider@];
                let known = ps.dom().contains(provider@);
                let region_ok = known && p.supported_regions.contains(region@);
                let runtime_ok = region_ok && p.supported_runtimes.contains(runtime@);
                let memory_ok = runtime_ok && memory_mb <= p.max_memory_mb;
                let timeout_ok = memory_ok && timeout_seconds <= p.max_timeout_seconds;
                &&& (r is Ok <==> timeout_ok)
                &&& !known ==> (r matches Err(e) && e is NotFound && e.message() == "Provider "@ + provider@ + " not supported"@)
                &&& known && !region_ok ==> (r matches Err(e) && e is Internal
                    && e.message() == "Region "@ + region@ + " not supported by "@ + provider@)
                &&& region_ok && !runtime_ok ==> (r matches Err(e) && e is Internal
                    && e.message() == "Runtime "@ + runtime@ + " not supported by "@ + provider@)
                &&& runtime_ok && !memory_ok ==> (r matches Err(e) && e is Internal
                    && e.message() == "Memory "@ + nat_decimal(memory_mb as nat) + "MB exceeds maximum "@
                        + nat_decimal(p.max_memory_mb as nat) + "MB for "@ + provider@)
                &&& memory_ok && !timeout_ok ==> (r matches Err(e) && e is Internal
                    && e.message() == "Timeout "@ + nat_decimal(timeout_seconds as nat) + "s exceeds maximum "@
                        + nat_decimal(p.max_timeout_seconds as nat) + "s for "@ + provider@)
            }),
            match r {
                Ok(id) => {
                    let c = final(self).configs_view()[id@];
                    &&& final(self).configs_view() == old(self).configs_view().insert(id@, c)
                    &&& c == (ConfigView {
                        id: id@,
                        name: name@,
                        provider: provider@,
                        region: region@,
                        runtime: runtime@,
                        memory_mb,
                        timeout_seconds,
                        min_instances: 0,
                        max_instances: 100,
                        environment_variables: pair_views(environment_variables@),
                        is_active: true,
                        created_at: c.created_at,
                    })
                    &&& 0 <= c.created_at < MAX_TIMESTAMP
                    &&& final(self).counts_view() == old(self).counts_view().insert(id@, 0)
                },
                Err(_) => final(self).configs_view() == old(self).configs_view()
                    && final(self).counts_view() == old(self).counts_view(),
            },
    {
        let p = match self.providers.get(provider.as_str()) {
            Some(p) => p,
            None => return Err(AppError::NotFound(concat3("Provider ", provider.as_str(), " not supported"))),
        };
        if !strings_contain(&p.supported_regions, region.as_str()) {
            let mut msg = concat3("Region ", region.as_str(), " not supported by ");
            push_str(&mut msg, provider.as_str());
            return Err(AppError::Internal(msg));
        }
        if !strings_contain(&p.supported_runtimes, runtime.as_str()) {
            let mut msg = concat3("Runtime ", runtime.as_str(), " not supported by ");
            push_str(&mut msg, provider.as_str());
            return Err(AppError::Internal(msg));
        }
        if memory_mb > p.max_memory_mb {
            let mut msg = str_to_string("Memory ");
            push_u64_decimal(&mut msg, memory_mb as u64);
            push_str(&mut msg, "MB exceeds maximum ");
            push_u64_decimal(&mut msg, p.max_memory_mb as u64);
            push_str(&mut msg, "MB for ");
            push_str(&mut msg, provider.as_str());
            return Err(AppError::Internal(msg));
        }
        if timeout_seconds > p.max_timeout_seconds {
            let mut msg = str_to_string("Timeout ");
            push_u64_decimal(&mut msg, timeout_seconds as u64);
            push_str(&mut msg, "s exceeds maximum ");
            push_u64_decimal(&mut msg, p.max_timeout_seconds as u64);
            push_str(&mut msg, "s for ");
            push_str(&mut msg, provider.as_str());
            return Err(AppError::Internal(msg));
        }
        let id = new_uuid();
        let config = ServerlessConfig {
            id: id.clone(),
            name,
            provider,
            region,
            runtime,
            memory_mb,
            timeout_seconds,
            min_instances: 0,
            max_instances: 100,
            environment_variables,
            is_active: true,
            created_at: now_timestamp(),
        };
        self.configs.insert(config);
        self.invocation_counts.insert(InvocationCount { config_id: id.clone(), count: 0 });
        proof {
            assert(self.counts_view() =~= old(self).counts_view().insert(id@, 0));
        }
        Ok(id)
    }

    /// The configuration `config_id`; `NotFound` when there is none.
    pub fn get_config(&self, config_id: &str) -> (r: Result<ServerlessConfig, AppError>)
        requires
            self.wf(),
        ensures
            r is Ok <==> self.configs_view().dom().contains(config_id@),
            match r {
                Ok(c) => c@ == self.configs_view()[config_id@],
                Err(e) => e is NotFound && e.message() == config_not_found(config_id@),
            },
    {
        match self.configs.get_copy(config_id) {
            Some(c) => Ok(c),
            None => Err(AppError::NotFound(concat3("Config ", config_id, " not found"))),
        }
    }

    /// All configurations, each once.
    pub fn list_configs(&self) -> (r: Vec<ServerlessConfig>)
        requires
            self.wf(),
        ensures
            lists_map(record_entries(r@).map_values(|e: (Seq<char>, ConfigView)| e.0), r@.map_values(|x: ServerlessConfig| x@), self.configs_view()),
    {
        self.configs.values()
    }

    /// Sets the fields given as `Some` of the configuration `config_id`; `NotFound`
    /// when there is none.
    pub fn update_config(
        &mut self,
        config_id: &str,
        name: Option<String>,
        memory_mb: Option<u32>,
        timeout_seconds: Option<u32>,
        min_instances: Option<u32>,
        max_instances: Option<u32>,
        environment_variables: Option<Vec<(String, String)>>,
    ) -> (r: Result<(), AppError>)
        requires
            old(self).wf(),
        ensures
            final(self).wf(),
            final(self).providers_view() == old(self).providers_view(),
            final(self).packages_view() == old(self).packages_view(),
            final(self).policies_view() == old(self).policies_view(),
            final(self).counts_view() == old(self).counts_view(),
            r is Ok <==> old(self).configs_view().dom().contains(config_id@),
            match r {
                Ok(_) => {
                    let c = old(self).configs_view()[config_id@];
                    final(self).configs_view() == old(self).configs_view().insert(config_id@, ConfigView {
                        name: match name { Some(n) => n@, None => c.name },
                        memory_mb: match memory_mb { Some(m) => m, None => c.memory_mb },
                        timeout_seconds: match timeout_seconds { Some(t) => t, None => c.timeout_seconds },
                        min_instances: match min_instances { Some(m) => m, None => c.min_instances },
                        max_instances: match max_instances { Some(m) => m, None => c.max_instances },
                        environment_variables: match environment_variables { Some(e) => pair_views(e@), None => c.environment_variables },
                        ..c
                    })
                },
                Err(e) => e is NotFound && e.message() == config_not_found(config_id@)
                    && final(self).configs_view() == old(self).configs_view(),
            },
    {
        let mut c = match self.configs.get_copy(config_id) {
            Some(c) => c,
            None => return Err(AppError::NotFound(concat3("Config ", config_id, " not found"))),
        };
        if let Some(n) = name {
            c.name = n;
        }
        if let Some(m) = memory_mb {
            c.memory_mb = m;
        }
        if let Some(t) = timeout_seconds {
            c.timeout_seconds = t;
        }
        if let Some(m) = min_instances {
            c.min_instances = m;
        }
        if let Some(m) = max_instances {
            c.max_instances = m;
        }
        if let Some(e) = environment_variables {
            c.environment_variables = e;
        }
        self.configs.insert(c);
        Ok(())
    }

    /// Removes the configuration `config_id` and its invocation counter; `NotFound`
    /// when there is none.
    pub fn delete_config(&mut self, config_id: &str) -> (r: Result<(), AppError>)
        requires
            old(self).wf(),
        ensures
            final(self).wf(),
            final(self).providers_view() == old(self).providers_view(),
            final(self).packages_view() == old(self).packages_view(),
            final(self).policies_view() == old(self).policies_view(),
            r is Ok <==> old(self).configs_view().dom().contains(config_id@),
            match r {
                Ok(_) => final(self).configs_view() == old(self).configs_view().remove(config_id@)
                    && final(self).counts_view() == old(self).counts_view().remove(config_id@),
                Err(e) => e is NotFound && e.message() == config_not_found(config_id@)
                    && final(self).configs_view() == old(self).configs_view()
                    && final(self).counts_view() == old(self).counts_view(),
            },
    {
        if self.configs.remove(config_id).is_none() {
            return Err(AppError::NotFound(concat3("Config ", config_id, " not found")));
        }
        let _ = self.invocation_counts.remove(config_id);
        assert(self.counts_view() =~= old(self).counts_view().remove(config_id@));
        Ok(())
    }
    /// Adds a pending package for the configuration `config_id` under a fresh random
    /// id, with the data's size and a hexadecimal checksum of it; `NotFound` when there
    /// is no such configuration.
    pub fn create_deployment_package(&mut self, config_id: &str, version: String, package_data: &[u8]) -> (r: Result<String, AppError>)
        requires
            old(self).wf(),
        ensures
            final(self).wf(),
            final(self).configs_view() == old(self).configs_view(),
            final(self).providers_view() == old(self).providers_view(),
            final(self).policies_view() == old(self).policies_view(),
            final(self).counts_view() == old(self).counts_view(),
            r is Ok <==> old(self).configs_view().dom().contains(config_id@),
            match r {
                Ok(id) => {
                    let p = final(self).packages_view()[id@];
                    &&& final(self).packages_view() == old(self).packages_view().insert(id@, p)
                    &&& p.id == id@
                    &&& p.config_id == config_id@
                    &&& p.version == version@
                    &&& p.package_size_bytes == package_data@.len()
                    &&& exists|h: u64| p.checksum == #[trigger] nat_hex(h as nat)
                    &&& p.deployed_at is None
                    &&& p.status == "pending"@
                },
                Err(e) => e is NotFound && e.message() == config_not_found(config_id@)
                    && final(self).packages_view() == old(self).packages_view(),
            },
    {
        if !self.configs.contains(config_id) {
            return Err(AppError::NotFound(concat3("Config ", config_id, " not found")));
        }
        let id = new_uuid();
        let h = package_hash(package_data);
        let mut checksum = String::new();
        push_u64_hex(&mut checksum, h);
        assert(checksum@ =~= nat_hex(h as nat));
        let package = DeploymentPackage {
            id: id.clone(),
            config_id: str_to_string(config_id),
            version,
            package_size_bytes: package_data.len() as u64,
            checksum,
            deployed_at: None,
            status: str_to_string("pending"),
        };
        self.packages.insert(package);
        Ok(id)
    }

    /// Marks the package `package_id` deployed, now; `NotFound` when there is none.
    pub fn deploy_package(&mut self, package_id: &str) -> (r: Result<(), AppError>)
        requires
            old(self).wf(),
        ensures
            final(self).wf(),
            final(self).configs_view() == old(self).configs_view(),
            final(self).providers_view() == old(self).providers_view(),
            final(self).policies_view() == old(self).policies_view(),
            final(self).counts_view() == old(self).counts_view(),
            r is Ok <==> old(self).packages_view().dom().contains(package_id@),
            match r {
                Ok(_) => {
                    let p = final(self).packages_view()[package_id@];
                    &&& final(self).packages_view() == old(self).packages_view().insert(package_id@, p)
                    &&& p == (PackageView {
                        status: "deployed"@,
                        deployed_at: p.deployed_at,
                        ..old(self).packages_view()[package_id@]
                    })
                    &&& p.deployed_at matches Some(t) && 0 <= t < MAX_TIMESTAMP
                },
                Err(e) => e is NotFound && e.message() == "Package "@ + package_id@ + " not found"@
                    && final(self).packages_view() == old(self).packages_view(),
            },
    {
        let mut p = match self.packages.get_copy(package_id) {
            Some(p) => p,
            None => return Err(AppError::NotFound(concat3("Package ", package_id, " not found"))),
        };
        p.status = str_to_string("deployed");
        p.deployed_at = Some(now_timestamp());
        self.packages.insert(p);
        Ok(())
    }

    /// The packages, each once: those of the configuration `config_id` when it is given.
    pub fn list_packages(&self, config_id: Option<&str>) -> (r: Vec<DeploymentPackage>)
        requires
            self.wf(),
        ensures
            lists_map(
                record_entries(r@).map_values(|e: (Seq<char>, PackageView)| e.0),
                r@.map_values(|x: DeploymentPackage| x@),
                match config_id {
                    Some(cid) => restrict_where(self.packages_view(), |p: PackageView| p.config_id == cid@),
                    None => self.packages_view(),
                },
            ),
    {
        match config_id {
            Some(cid) => {
                let f = OfConfig { config_id: cid };
                let r = self.packages.values_where(&f);
                assert(restrict_where(self.packages_view(), filter_pred::<DeploymentPackage, OfConfig>(&f))
                    =~= restrict_where(self.packages_view(), |p: PackageView| p.config_id == cid@));
                r
            },
            None => self.packages.values(),
        }
    }

    /// Adds a scaling policy for the configuration `config_id` under a fresh random id;
    /// `NotFound` when there is no such configuration.
    pub fn create_scaling_policy(
        &mut self,
        config_id: &str,
        trigger_type: String,
        threshold_bits: u64,
        scale_up_factor_bits: u64,
        scale_down_factor_bits: u64,
        cooldown_seconds: u32,
    ) -> (r: Result<String, AppError>)
        requires
            old(self).wf(),
        ensures
            final(self).wf(),
            final(self).configs_view() == old(self).configs_view(),
            final(self).providers_view() == old(self).providers_view(),
            final(self).packages_view() == old(self).packages_view(),
            final(self).counts_view() == old(self).counts_view(),
            r is Ok <==> old(self).configs_view().dom().contains(config_id@),
            match r {
                Ok(id) => final(self).policies_view() == old(self).policies_view().insert(id@, PolicyView {
                    id: id@,
                    config_id: config_id@,
                    trigger_type: trigger_type@,
                    threshold_bits,
                    scale_up_factor_bits,
                    scale_down_factor_bits,
                    cooldown_seconds,
                }),
                Err(e) => e is NotFound && e.message() == config_not_found(config_id@)
                    && final(self).policies_view() == old(self).policies_view(),
            },
    {
        if !self.configs.contains(config_id) {
            return Err(AppError::NotFound(concat3("Config ", config_id, " not found")));
        }
        let id = new_uuid();
        let policy = ScalingPolicy {
            id: id.clone(),
            config_id: str_to_string(config_id),
            trigger_type,
            threshold_bits,
            scale_up_factor_bits,
            scale_down_factor_bits,
            cooldown_seconds,
        };
        self.scaling_policies.insert(policy);
        Ok(id)
    }

    /// The scaling policies, each once: those of the configuration `config_id` when it
    /// is given.
    pub fn list_scaling_policies(&self, config_id: Option<&str>) -> (r: Vec<ScalingPolicy>)
        requires
            self.wf(),
        ensures
            lists_map(
                record_entries(r@).map_values(|e: (Seq<char>, PolicyView)| e.0),
                r@.map_values(|x: ScalingPolicy| x@),
                match config_id {
                    Some(cid) => restrict_where(self.policies_view(), |p: PolicyView| p.config_id == cid@),
                    None => self.policies_view(),
                },
            ),
    {
        match config_id {
            Some(cid) => {
                let f = OfConfig { config_id: cid };
                let r = self.scaling_policies.values_where(&f);
                assert(restrict_where(self.policies_view(), filter_pred::<ScalingPolicy, OfConfig>(&f))
                    =~= restrict_where(self.policies_view(), |p: PolicyView| p.config_id == cid@));
                r
            },
            None => self.scaling_policies.values(),
        }
    }

    /// Removes the scaling policy `policy_id`; `NotFound` when there is none.
    pub fn delete_scaling_policy(&mut self, policy_id: &str) -> (r: Result<(), AppError>)
        requires
            old(self).wf(),
        ensures
            final(self).wf(),
            final(self).configs_view() == old(self).configs_view(),
            final(self).providers_view() == old(self).providers_view(),
            final(self).packages_view() == old(self).packages_view(),
            final(self).counts_view() == old(self).counts_view(),
            final(self).policies_view() == old(self).policies_view().remove(policy_id@),
            r is Ok <==> old(self).policies_view().dom().contains(policy_id@),
            r matches Err(e) ==> e is NotFound && e.message() == "Scaling policy "@ + policy_id@ + " not found"@,
    {
        match self.scaling_policies.remove(policy_id) {
            Some(_) => Ok(()),
            None => Err(AppError::NotFound(concat3("Scaling policy ", policy_id, " not found"))),
        }
    }

    /// Counts one more invocation of `config_id` (starting a counter when it has none).
    pub fn record_invocation(&mut self, config_id: &str) -> (r: Result<(), AppError>)
        requires
            old(self).wf(),
            old(self).count_of(config_id@) < u64::MAX,
        ensures
            final(self).wf(),
            r is Ok,
            final(self).configs_view() == old(self).configs_view(),
            final(self).providers_view() == old(self).providers_view(),
            final(self).packages_view() == old(self).packages_view(),
            final(self).policies_view() == old(self).policies_view(),
            final(self).counts_view() == old(self).counts_view().insert(config_id@, (old(self).count_of(config_id@) + 1) as u64),
    {
        let n = self.get_invocation_count(config_id);
        self.invocation_counts.insert(InvocationCount { config_id: str_to_string(config_id), count: n + 1 });
        assert(self.counts_view() =~= old(self).counts_view().insert(config_id@, (n + 1) as u64));
        Ok(())
    }

    /// The number of invocations of `config_id` (zero when it has no counter).
    pub fn get_invocation_count(&self, config_id: &str) -> (n: u64)
        requires
            self.wf(),
        ensures
            n == self.count_of(config_id@),
    {
        match self.invocation_counts.get(config_id) {
            Some(c) => c.count,
            None => 0,
        }
    }

    /// All providers, each once.
    pub fn get_providers(&self) -> (r: Vec<ServerlessProvider>)
        requires
            self.wf(),
        ensures
            lists_map(record_entries(r@).map_values(|e: (Seq<char>, ProviderView)| e.0), r@.map_values(|x: ServerlessProvider| x@), self.providers_view()),
    {
        self.providers.values()
    }

    /// The provider `provider_name`; `NotFound` when there is none.
    pub fn get_provider(&self, provider_name: &str) -> (r: Result<ServerlessProvider, AppError>)
        requires
            self.wf(),
        ensures
            r is Ok <==> self.providers_view().dom().contains(provider_name@),
            match r {
                Ok(p) => p@ == self.providers_view()[provider_name@],
                Err(e) => e is NotFound && e.message() == "Provider "@ + provider_name@ + " not found"@,
            },
    {
        match self.providers.get_copy(provider_name) {
            Some(p) => Ok(p),
            None => Err(AppError::NotFound(concat3("Provider ", provider_name, " not found"))),
        }
    }

    /// The sum of all invocation counters.
    pub closed spec fn invocations_total(&self) -> int {
        counts_total(self.invocation_counts.entries())
    }

    /// The number of packages, of deployed packages and of invocations, with the fixed
    /// response-time and error-rate estimates.
    pub fn get_deployment_stats(&self) -> (r: DeploymentStats)
        requires
            self.wf(),
            self.invocations_total() <= u64::MAX,
        ensures
            r.total_deployments == self.packages_view().dom().len(),
            r.active_deployments == crate::keyed::count_where(self.packages_view(), |p: PackageView| p.status == "deployed"@),
            r.total_invocations == self.invocations_total(),
            r.avg_response_time_ms_bits == AVG_RESPONSE_TIME_MS_BITS,
            r.error_rate_bits == ERROR_RATE_BITS,
    {
        let f = Deployed;
        let deployed = self.packages.values_where(&f);
        let total = self.sum_counts();
        proof {
            let m = self.packages_view();
            let p = |p: PackageView| p.status == "deployed"@;
            assert(restrict_where(m, filter_pred::<DeploymentPackage, Deployed>(&f)) =~= restrict_where(m, p));
            assert(restrict_where(m, p).dom() =~= m.dom().filter(|k: Seq<char>| p(m[k])));
        }
        DeploymentStats {
            total_deployments: self.packages.len(),
            active_deployments: deployed.len(),
            total_invocations: total,
            avg_response_time_ms_bits: AVG_RESPONSE_TIME_MS_BITS,
            error_rate_bits: ERROR_RATE_BITS,
        }
    }

    fn sum_counts(&self) -> (n: u64)
        requires
            self.wf(),
            self.invocations_total() <= u64::MAX,
        ensures
            n == self.invocations_total(),
    {
        let v = self.invocation_counts.records();
        let ghost es = record_entries(v@);
        let mut n: u64 = 0;
        let mut i: usize = 0;
        assert(es.take(0) =~= Seq::<(Seq<char>, (Seq<char>, u64))>::empty());
        while i < v.len()
            invariant
                i <= v@.len(),
                es == record_entries(v@),
                es == self.invocation_counts.entries(),
                counts_total(es) <= u64::MAX,
                n == counts_total(es.take(i as int)),
            decreases v.len() - i,
        {
            proof {
                assert(es.take(i + 1).drop_last() =~= es.take(i as int));
                assert(es.take(i + 1).last() == es[i as int]);
                lemma_total_prefix(es, i + 1);
            }
            n = n + v[i].count;
            i = i + 1;
        }
        assert(es.take(v@.len() as int) =~= es);
        n
    }

    /// The deployment template of the configuration `config_id` in the format
    /// `serverless.yml`, `terraform` or `sam`; `NotFound` when there is no such
    /// configuration, `Internal` for another format.
    pub fn generate_deployment_template(&self, config_id: &str, format: &str) -> (r: Result<String, AppError>)
        requires
            self.wf(),
        ensures
            r is Ok <==> self.configs_view().dom().contains(config_id@)
                && (format@ == "serverless.yml"@ || format@ == "terraform"@ || format@ == "sam"@),
            !self.configs_view().dom().contains(config_id@) ==> (r matches Err(e) && e is NotFound
                && e.message() == config_not_found(config_id@)),
            r matches Ok(t) ==> (format@ == "serverless.yml"@ ==> t@ == serverless_yml(self.configs_view()[config_id@])),
            r matches Ok(t) ==> (format@ == "terraform"@ ==> t@ == terraform_tf(self.configs_view()[config_id@])),
            r matches Ok(t) ==> (format@ == "sam"@ ==> t@ == sam_yaml(self.configs_view()[config_id@])),
            self.configs_view().dom().contains(config_id@) ==> (r matches Err(e) ==> e is Internal
                && e.message() == "Unsupported template format: "@ + format@),
    {
        let c = match self.get_config(config_id) {
            Ok(c) => c,
            Err(e) => return Err(e),
        };
        proof {
            reveal_strlit("serverless.yml");
            reveal_strlit("terraform");
            reveal_strlit("sam");
            assert("serverless.yml"@.len() != "terraform"@.len());
            assert("serverless.yml"@.len() != "sam"@.len());
            assert("terraform"@.len() != "sam"@.len());
        }
        if str_eq(format, "serverless.yml") {
            let mut t = str_to_string("service: ");
            push_str(&mut t, c.name.as_str());
            push_str(&mut t, "\n\nprovider:\n  name: ");
            push_str(&mut t, c.provider.as_str());
            push_str(&mut t, "\n  runtime: ");
            push_str(&mut t, c.runtime.as_str());
            push_str(&mut t, "\n  region: ");
            push_str(&mut t, c.region.as_str());
            let ghost t1 = t@;
            push_str(&mut t, "\n  memorySize: ");
            push_u64_decimal(&mut t, c.memory_mb as u64);
            push_str(&mut t, "\n  timeout: ");
            push_u64_decimal(&mut t, c.timeout_seconds as u64);
            push_str(&mut t, "\n\nfunctions:\n  agent:\n    handler: handler.main\n    environment:\n");
            let ghost t2 = t@;
            push_env_lines(&mut t, &c.environment_variables, "      ", ": ", "");
            push_str(&mut t, "\n");
            proof {
                assert(""@ =~= Seq::<char>::empty()) by {
                    reveal_strlit("");
                }
                assert(t@ =~= serverless_yml(c@));
            }
            Ok(t)
        } else if str_eq(format, "terraform") {
            let mut t = str_to_string("resource \"aws_lambda_function\" \"");
            let n = replace_chars(c.name.as_str(), '-', '_');
            push_str(&mut t, n.as_str());
            push_str(&mut t, "\" {\n  function_name = \"");
            push_str(&mut t, c.name.as_str());
            push_str(&mut t, "\"\n  runtime       = \"");
            push_str(&mut t, c.runtime.as_str());
            push_str(&mut t, "\"\n  memory_size   = ");
            push_u64_decimal(&mut t, c.memory_mb as u64);
            push_str(&mut t, "\n  timeout       = ");
            push_u64_decimal(&mut t, c.timeout_seconds as u64);
            push_str(&mut t, "\n  handler       = \"handler.main\"\n\n  environment {\n    variables = {\n");
            push_env_lines(&mut t, &c.environment_variables, "      ", " = \"", "\"");
            push_str(&mut t, "\n    }\n  }\n}\n");
            assert(t@ =~= terraform_tf(c@));
            Ok(t)
        } else if str_eq(format, "sam") {
            let mut t = str_to_string("AWSTemplateFormatVersion: '2010-09-09'\nTransform: AWS::Serverless-2016-10-31\n\nResources:\n  ");
            let n = replace_chars(c.name.as_str(), '-', '_');
            push_str(&mut t, n.as_str());
            push_str(&mut t, "Function:\n    Type: AWS::Serverless::Function\n    Properties:\n      FunctionName: ");
            push_str(&mut t, c.name.as_str());
            push_str(&mut t, "\n      Runtime: ");
            push_str(&mut t, c.runtime.as_str());
            push_str(&mut t, "\n      MemorySize: ");
            push_u64_decimal(&mut t, c.memory_mb as u64);
            push_str(&mut t, "\n      Timeout: ");
            push_u64_decimal(&mut t, c.timeout_seconds as u64);
            push_str(&mut t, "\n      Handler: handler.main\n      Environment:\n        Variables:\n");
            push_env_lines(&mut t, &c.environment_variables, "          ", ": ", "");
            push_str(&mut t, "\n");
            proof {
                assert(""@ =~= Seq::<char>::empty()) by {
                    reveal_strlit("");
                }
                assert(t@ =~= sam_yaml(c@));
            }
            Ok(t)
        } else {
            let mut msg = str_to_string("Unsupported template format: ");
            push_str(&mut msg, format);
            Err(AppError::Internal(msg))
        }
    }
}

/// The sum of the counters of some entries.
pub open spec fn counts_total(es: Seq<(Seq<char>, (Seq<char>, u64))>) -> int
    decreases es.len(),
{
    if es.len() == 0 {
        0
    } else {
        counts_total(es.drop_last()) + es.last().1.1
    }
}

/// A prefix of the counters sums to no more than all of them.
pub proof fn lemma_total_prefix(es: Seq<(Seq<char>, (Seq<char>, u64))>, i: int)
    requires
        0 <= i <= es.len(),
    ensures
        counts_total(es.take(i)) <= counts_total(es),
    decreases es.len() - i,
{
    if i < es.len() {
        lemma_total_prefix(es, i + 1);
        assert(es.take(i + 1).drop_last() =~= es.take(i));
    } else {
        assert(es.take(i) =~= es);
    }
}

/// A hash of the package data by std's `DefaultHasher` (created with `new`, fed the
/// bytes through `Hash`). The hash depends on the platform's word size and byte order,
/// so nothing is claimed of its value.
#[verifier::external_body]
fn package_hash(data: &[u8]) -> (h: u64) {
    let mut hasher = std::collections::hash_map::DefaultHasher::new();
    std::hash::Hash::hash(data, &mut hasher);
    std::hash::Hasher::finish(&hasher)
}

proof fn lemma_line_contained(p: Seq<char>, key: Seq<char>, d: Seq<char>, rest: Seq<char>)
    requires
        rest.len() > 0,
        rest[0] == '\n',
    ensures
        seq_contains(p + key + d + rest, key + d + "\n"@),
{
    reveal_strlit("\n");
    let h = p + key + d + rest;
    let n = key + d + "\n"@;
    assert(h.subrange(p.len() as int, (p.len() + n.len()) as int) =~= n);
}

/// Every deployment template states the configuration's memory size and timeout on
/// lines of their own: each template holds its memory key followed by the decimal of
/// `memory_mb` and a line end, and its timeout key followed by the decimal of
/// `timeout_seconds` and a line end.
pub proof fn law_templates_state_memory_and_timeout(c: ConfigView)
    ensures
        seq_contains(serverless_yml(c), "\n  memorySize: "@ + nat_decimal(c.memory_mb as nat) + "\n"@),
        seq_contains(serverless_yml(c), "\n  timeout: "@ + nat_decimal(c.timeout_seconds as nat) + "\n"@),
        seq_contains(terraform_tf(c), "\n  memory_size   = "@ + nat_decimal(c.memory_mb as nat) + "\n"@),
        seq_contains(terraform_tf(c), "\n  timeout       = "@ + nat_decimal(c.timeout_seconds as nat) + "\n"@),
        seq_contains(sam_yaml(c), "\n      MemorySize: "@ + nat_decimal(c.memory_mb as nat) + "\n"@),
        seq_contains(sam_yaml(c), "\n      Timeout: "@ + nat_decimal(c.timeout_seconds as nat) + "\n"@),
{
    let dm = nat_decimal(c.memory_mb as nat);
    let dt = nat_decimal(c.timeout_seconds as nat);

    // serverless.yml
    let sj = join_lines(env_lines(c.environment_variables, "      "@, ": "@, Seq::empty()));
    let sl = "\n\nfunctions:\n  agent:\n    handler: handler.main\n    environment:\n"@;
    reveal_strlit("\n\nfunctions:\n  agent:\n    handler: handler.main\n    environment:\n");
    reveal_strlit("\n  timeout: ");
    let sp = "service: "@ + c.name + "\n\nprovider:\n  name: "@ + c.provider + "\n  runtime: "@ + c.runtime + "\n  region: "@
        + c.region;
    assert(serverless_yml(c) =~= sp + "\n  memorySize: "@ + dm + ("\n  timeout: "@ + dt + sl + sj + "\n"@));
    lemma_line_contained(sp, "\n  memorySize: "@, dm, "\n  timeout: "@ + dt + sl + sj + "\n"@);
    assert(serverless_yml(c) =~= (sp + "\n  memorySize: "@ + dm) + "\n  timeout: "@ + dt + (sl + sj + "\n"@));
    lemma_line_contained(sp + "\n  memorySize: "@ + dm, "\n  timeout: "@, dt, sl + sj + "\n"@);

    // terraform
    let tj = join_lines(env_lines(c.environment_variables, "      "@, " = \""@, "\""@));
    let tl = "\n  handler       = \"handler.main\"\n\n  environment {\n    variables = {\n"@;
    let tz = "\n    }\n  }\n}\n"@;
    reveal_strlit("\n  handler       = \"handler.main\"\n\n  environment {\n    variables = {\n");
    reveal_strlit("\n  timeout       = ");
    reveal_strlit("\"\n  memory_size   = ");
    reveal_strlit("\n  memory_size   = ");
    reveal_strlit("\"");
    assert("\"\n  memory_size   = "@ =~= "\""@ + "\n  memory_size   = "@);
    let tp = "resource \"aws_lambda_function\" \""@ + replace_char(c.name, '-', '_') + "\" {\n  function_name = \""@ + c.name
        + "\"\n  runtime       = \""@ + c.runtime;
    assert(terraform_tf(c) =~= (tp + "\""@) + "\n  memory_size   = "@ + dm + ("\n  timeout       = "@ + dt + tl + tj + tz));
    lemma_line_contained(tp + "\""@, "\n  memory_size   = "@, dm, "\n  timeout       = "@ + dt + tl + tj + tz);
    assert(terraform_tf(c) =~= (tp + "\"\n  memory_size   = "@ + dm) + "\n  timeout       = "@ + dt + (tl + tj + tz));
    lemma_line_contained(tp + "\"\n  memory_size   = "@ + dm, "\n  timeout       = "@, dt, tl + tj + tz);

    // sam
    let aj = join_lines(env_lines(c.environment_variables, "          "@, ": "@, Seq::empty()));
    let al = "\n      Handler: handler.main\n      Environment:\n        Variables:\n"@;
    reveal_strlit("\n      Handler: handler.main\n      Environment:\n        Variables:\n");
    reveal_strlit("\n      Timeout: ");
    let ap = "AWSTemplateFormatVersion: '2010-09-09'\nTransform: AWS::Serverless-2016-10-31\n\nResources:\n  "@
        + replace_char(c.name, '-', '_') + "Function:\n    Type: AWS::Serverless::Function\n    Properties:\n      FunctionName: "@
        + c.name + "\n      Runtime: "@ + c.runtime;
    assert(sam_yaml(c) =~= ap + "\n      MemorySize: "@ + dm + ("\n      Timeout: "@ + dt + al + aj + "\n"@));
    lemma_line_contained(ap, "\n      MemorySize: "@, dm, "\n      Timeout: "@ + dt + al + aj + "\n"@);
    assert(sam_yaml(c) =~= (ap + "\n      MemorySize: "@ + dm) + "\n      Timeout: "@ + dt + (al + aj + "\n"@));
    lemma_line_contained(ap + "\n      MemorySize: "@ + dm, "\n      Timeout: "@, dt, al + aj + "\n"@);
}

} // verus!
