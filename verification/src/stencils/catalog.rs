//! The built-in stencil catalog: friendly key, mxgraph path and description
//! of each entry, one table per library.

use vstd::prelude::*;

use super::Entry;

verus! {
/// The aws entries.
pub open spec fn aws_spec() -> Seq<Entry> {
    seq![
        Entry { key: "aws.ec2", path: "mxgraph.aws4.ec2", desc: "EC2 instance" },
        Entry { key: "aws.lambda", path: "mxgraph.aws4.lambda", desc: "Lambda function" },
        Entry { key: "aws.ecs", path: "mxgraph.aws4.elastic_container_service", desc: "ECS" },
        Entry { key: "aws.eks", path: "mxgraph.aws4.elastic_kubernetes_service", desc: "EKS" },
        Entry { key: "aws.fargate", path: "mxgraph.aws4.fargate", desc: "Fargate" },
        Entry { key: "aws.batch", path: "mxgraph.aws4.batch", desc: "AWS Batch" },
        Entry { key: "aws.elastic_beanstalk", path: "mxgraph.aws4.elastic_beanstalk", desc: "Elastic Beanstalk" },
        Entry { key: "aws.lightsail", path: "mxgraph.aws4.lightsail", desc: "Lightsail" },
        Entry { key: "aws.auto_scaling", path: "mxgraph.aws4.auto_scaling", desc: "Auto Scaling" },
        Entry { key: "aws.s3", path: "mxgraph.aws4.s3", desc: "S3 bucket" },
        Entry { key: "aws.ebs", path: "mxgraph.aws4.elastic_block_store", desc: "EBS volume" },
        Entry { key: "aws.efs", path: "mxgraph.aws4.elastic_file_system", desc: "EFS" },
        Entry { key: "aws.glacier", path: "mxgraph.aws4.s3_glacier", desc: "S3 Glacier" },
        Entry { key: "aws.storage_gateway", path: "mxgraph.aws4.storage_gateway", desc: "Storage Gateway" },
        Entry { key: "aws.rds", path: "mxgraph.aws4.rds", desc: "RDS database" },
        Entry { key: "aws.aurora", path: "mxgraph.aws4.aurora", desc: "Aurora" },
        Entry { key: "aws.dynamodb", path: "mxgraph.aws4.dynamodb", desc: "DynamoDB" },
        Entry { key: "aws.elasticache", path: "mxgraph.aws4.elasticache", desc: "ElastiCache" },
        Entry { key: "aws.redshift", path: "mxgraph.aws4.redshift", desc: "Redshift" },
        Entry { key: "aws.documentdb", path: "mxgraph.aws4.documentdb_with_mongodb_compatibility", desc: "DocumentDB" },
        Entry { key: "aws.neptune", path: "mxgraph.aws4.neptune", desc: "Neptune" },
        Entry { key: "aws.vpc", path: "mxgraph.aws4.virtual_private_cloud", desc: "VPC" },
        Entry { key: "aws.api_gateway", path: "mxgraph.aws4.api_gateway", desc: "API Gateway" },
        Entry { key: "aws.cloudfront", path: "mxgraph.aws4.cloudfront", desc: "CloudFront CDN" },
        Entry { key: "aws.route53", path: "mxgraph.aws4.route_53", desc: "Route 53" },
        Entry { key: "aws.elb", path: "mxgraph.aws4.elastic_load_balancing", desc: "Elastic Load Balancing" },
        Entry { key: "aws.direct_connect", path: "mxgraph.aws4.direct_connect", desc: "Direct Connect" },
        Entry { key: "aws.transit_gateway", path: "mxgraph.aws4.transit_gateway", desc: "Transit Gateway" },
        Entry { key: "aws.nat_gateway", path: "mxgraph.aws4.nat_gateway", desc: "NAT Gateway" },
        Entry { key: "aws.sns", path: "mxgraph.aws4.simple_notification_service", desc: "SNS" },
        Entry { key: "aws.sqs", path: "mxgraph.aws4.simple_queue_service", desc: "SQS" },
        Entry { key: "aws.eventbridge", path: "mxgraph.aws4.eventbridge", desc: "EventBridge" },
        Entry { key: "aws.step_functions", path: "mxgraph.aws4.step_functions", desc: "Step Functions" },
        Entry { key: "aws.kinesis", path: "mxgraph.aws4.kinesis", desc: "Kinesis" },
        Entry { key: "aws.iam", path: "mxgraph.aws4.identity_and_access_management", desc: "IAM" },
        Entry { key: "aws.cognito", path: "mxgraph.aws4.cognito", desc: "Cognito" },
        Entry { key: "aws.kms", path: "mxgraph.aws4.key_management_service", desc: "KMS" },
        Entry { key: "aws.secrets_manager", path: "mxgraph.aws4.secrets_manager", desc: "Secrets Manager" },
        Entry { key: "aws.waf", path: "mxgraph.aws4.waf", desc: "WAF" },
        Entry { key: "aws.shield", path: "mxgraph.aws4.shield", desc: "Shield" },
        Entry { key: "aws.cloudwatch", path: "mxgraph.aws4.cloudwatch", desc: "CloudWatch" },
        Entry { key: "aws.cloudformation", path: "mxgraph.aws4.cloudformation", desc: "CloudFormation" },
        Entry { key: "aws.athena", path: "mxgraph.aws4.athena", desc: "Athena" },
        Entry { key: "aws.glue", path: "mxgraph.aws4.glue", desc: "Glue" },
        Entry { key: "aws.sagemaker", path: "mxgraph.aws4.sagemaker", desc: "SageMaker" },
        Entry { key: "aws.user", path: "mxgraph.aws4.user", desc: "User" },
        Entry { key: "aws.users", path: "mxgraph.aws4.users", desc: "Users" },
        Entry { key: "aws.internet", path: "mxgraph.aws4.internet", desc: "Internet" },
    ]
}

fn aws_entries() -> (r: Vec<Entry>)
    ensures
        r@ == aws_spec(),
{
    let mut v: Vec<Entry> = Vec::new();
    v.push(Entry { key: "aws.ec2", path: "mxgraph.aws4.ec2", desc: "EC2 instance" });
    v.push(Entry { key: "aws.lambda", path: "mxgraph.aws4.lambda", desc: "Lambda function" });
    v.push(Entry { key: "aws.ecs", path: "mxgraph.aws4.elastic_container_service", desc: "ECS" });
    v.push(Entry { key: "aws.eks", path: "mxgraph.aws4.elastic_kubernetes_service", desc: "EKS" });
    v.push(Entry { key: "aws.fargate", path: "mxgraph.aws4.fargate", desc: "Fargate" });
    v.push(Entry { key: "aws.batch", path: "mxgraph.aws4.batch", desc: "AWS Batch" });
    v.push(Entry { key: "aws.elastic_beanstalk", path: "mxgraph.aws4.elastic_beanstalk", desc: "Elastic Beanstalk" });
    v.push(Entry { key: "aws.lightsail", path: "mxgraph.aws4.lightsail", desc: "Lightsail" });
    v.push(Entry { key: "aws.auto_scaling", path: "mxgraph.aws4.auto_scaling", desc: "Auto Scaling" });
    v.push(Entry { key: "aws.s3", path: "mxgraph.aws4.s3", desc: "S3 bucket" });
    v.push(Entry { key: "aws.ebs", path: "mxgraph.aws4.elastic_block_store", desc: "EBS volume" });
    v.push(Entry { key: "aws.efs", path: "mxgraph.aws4.elastic_file_system", desc: "EFS" });
    v.push(Entry { key: "aws.glacier", path: "mxgraph.aws4.s3_glacier", desc: "S3 Glacier" });
    v.push(Entry { key: "aws.storage_gateway", path: "mxgraph.aws4.storage_gateway", desc: "Storage Gateway" });
    v.push(Entry { key: "aws.rds", path: "mxgraph.aws4.rds", desc: "RDS database" });
    v.push(Entry { key: "aws.aurora", path: "mxgraph.aws4.aurora", desc: "Aurora" });
    v.push(Entry { key: "aws.dynamodb", path: "mxgraph.aws4.dynamodb", desc: "DynamoDB" });
    v.push(Entry { key: "aws.elasticache", path: "mxgraph.aws4.elasticache", desc: "ElastiCache" });
    v.push(Entry { key: "aws.redshift", path: "mxgraph.aws4.redshift", desc: "Redshift" });
    v.push(Entry { key: "aws.documentdb", path: "mxgraph.aws4.documentdb_with_mongodb_compatibility", desc: "DocumentDB" });
    v.push(Entry { key: "aws.neptune", path: "mxgraph.aws4.neptune", desc: "Neptune" });
    v.push(Entry { key: "aws.vpc", path: "mxgraph.aws4.virtual_private_cloud", desc: "VPC" });
    v.push(Entry { key: "aws.api_gateway", path: "mxgraph.aws4.api_gateway", desc: "API Gateway" });
    v.push(Entry { key: "aws.cloudfront", path: "mxgraph.aws4.cloudfront", desc: "CloudFront CDN" });
    v.push(Entry { key: "aws.route53", path: "mxgraph.aws4.route_53", desc: "Route 53" });
    v.push(Entry { key: "aws.elb", path: "mxgraph.aws4.elastic_load_balancing", desc: "Elastic Load Balancing" });
    v.push(Entry { key: "aws.direct_connect", path: "mxgraph.aws4.direct_connect", desc: "Direct Connect" });
    v.push(Entry { key: "aws.transit_gateway", path: "mxgraph.aws4.transit_gateway", desc: "Transit Gateway" });
    v.push(Entry { key: "aws.nat_gateway", path: "mxgraph.aws4.nat_gateway", desc: "NAT Gateway" });
    v.push(Entry { key: "aws.sns", path: "mxgraph.aws4.simple_notification_service", desc: "SNS" });
    v.push(Entry { key: "aws.sqs", path: "mxgraph.aws4.simple_queue_service", desc: "SQS" });
    v.push(Entry { key: "aws.eventbridge", path: "mxgraph.aws4.eventbridge", desc: "EventBridge" });
    v.push(Entry { key: "aws.step_functions", path: "mxgraph.aws4.step_functions", desc: "Step Functions" });
    v.push(Entry { key: "aws.kinesis", path: "mxgraph.aws4.kinesis", desc: "Kinesis" });
    v.push(Entry { key: "aws.iam", path: "mxgraph.aws4.identity_and_access_management", desc: "IAM" });
    v.push(Entry { key: "aws.cognito", path: "mxgraph.aws4.cognito", desc: "Cognito" });
    v.push(Entry { key: "aws.kms", path: "mxgraph.aws4.key_management_service", desc: "KMS" });
    v.push(Entry { key: "aws.secrets_manager", path: "mxgraph.aws4.secrets_manager", desc: "Secrets Manager" });
    v.push(Entry { key: "aws.waf", path: "mxgraph.aws4.waf", desc: "WAF" });
    v.push(Entry { key: "aws.shield", path: "mxgraph.aws4.shield", desc: "Shield" });
    v.push(Entry { key: "aws.cloudwatch", path: "mxgraph.aws4.cloudwatch", desc: "CloudWatch" });
    v.push(Entry { key: "aws.cloudformation", path: "mxgraph.aws4.cloudformation", desc: "CloudFormation" });
    v.push(Entry { key: "aws.athena", path: "mxgraph.aws4.athena", desc: "Athena" });
    v.push(Entry { key: "aws.glue", path: "mxgraph.aws4.glue", desc: "Glue" });
    v.push(Entry { key: "aws.sagemaker", path: "mxgraph.aws4.sagemaker", desc: "SageMaker" });
    v.push(Entry { key: "aws.user", path: "mxgraph.aws4.user", desc: "User" });
    v.push(Entry { key: "aws.users", path: "mxgraph.aws4.users", desc: "Users" });
    v.push(Entry { key: "aws.internet", path: "mxgraph.aws4.internet", desc: "Internet" });
    assert(v@ =~= aws_spec());
    v
}

/// The azure entries.
pub open spec fn azure_spec() -> Seq<Entry> {
    seq![
        Entry { key: "azure.vm", path: "mxgraph.azure.virtual_machine", desc: "Virtual machine" },
        Entry { key: "azure.vm_scale_set", path: "mxgraph.azure.virtual_machine_scale_sets", desc: "VM scale set" },
        Entry { key: "azure.app_service", path: "mxgraph.azure.app_services", desc: "App Service" },
        Entry { key: "azure.functions", path: "mxgraph.azure.function_apps", desc: "Function app" },
        Entry { key: "azure.aks", path: "mxgraph.azure.kubernetes_services", desc: "AKS" },
        Entry { key: "azure.container_instances", path: "mxgraph.azure.container_instances", desc: "Container Instances" },
        Entry { key: "azure.sql", path: "mxgraph.azure.sql_database", desc: "SQL Database" },
        Entry { key: "azure.cosmos_db", path: "mxgraph.azure.azure_cosmos_db", desc: "Cosmos DB" },
        Entry { key: "azure.storage", path: "mxgraph.azure.storage_accounts", desc: "Storage account" },
        Entry { key: "azure.blob", path: "mxgraph.azure.blob_storage", desc: "Blob storage" },
        Entry { key: "azure.vnet", path: "mxgraph.azure.virtual_networks", desc: "Virtual network" },
        Entry { key: "azure.load_balancer", path: "mxgraph.azure.load_balancers", desc: "Load balancer" },
        Entry { key: "azure.app_gateway", path: "mxgraph.azure.application_gateway", desc: "Application Gateway" },
        Entry { key: "azure.firewall", path: "mxgraph.azure.firewall", desc: "Firewall" },
        Entry { key: "azure.cdn", path: "mxgraph.azure.cdn_profiles", desc: "CDN" },
        Entry { key: "azure.service_bus", path: "mxgraph.azure.azure_service_bus", desc: "Service Bus" },
        Entry { key: "azure.event_hub", path: "mxgraph.azure.event_hubs", desc: "Event Hubs" },
        Entry { key: "azure.key_vault", path: "mxgraph.azure.key_vaults", desc: "Key Vault" },
        Entry { key: "azure.active_directory", path: "mxgraph.azure.azure_active_directory", desc: "Active Directory" },
        Entry { key: "azure.monitor", path: "mxgraph.azure.monitor", desc: "Monitor" },
    ]
}

fn azure_entries() -> (r: Vec<Entry>)
    ensures
        r@ == azure_spec(),
{
    let mut v: Vec<Entry> = Vec::new();
    v.push(Entry { key: "azure.vm", path: "mxgraph.azure.virtual_machine", desc: "Virtual machine" });
    v.push(Entry { key: "azure.vm_scale_set", path: "mxgraph.azure.virtual_machine_scale_sets", desc: "VM scale set" });
    v.push(Entry { key: "azure.app_service", path: "mxgraph.azure.app_services", desc: "App Service" });
    v.push(Entry { key: "azure.functions", path: "mxgraph.azure.function_apps", desc: "Function app" });
    v.push(Entry { key: "azure.aks", path: "mxgraph.azure.kubernetes_services", desc: "AKS" });
    v.push(Entry { key: "azure.container_instances", path: "mxgraph.azure.container_instances", desc: "Container Instances" });
    v.push(Entry { key: "azure.sql", path: "mxgraph.azure.sql_database", desc: "SQL Database" });
    v.push(Entry { key: "azure.cosmos_db", path: "mxgraph.azure.azure_cosmos_db", desc: "Cosmos DB" });
    v.push(Entry { key: "azure.storage", path: "mxgraph.azure.storage_accounts", desc: "Storage account" });
    v.push(Entry { key: "azure.blob", path: "mxgraph.azure.blob_storage", desc: "Blob storage" });
    v.push(Entry { key: "azure.vnet", path: "mxgraph.azure.virtual_networks", desc: "Virtual network" });
    v.push(Entry { key: "azure.load_balancer", path: "mxgraph.azure.load_balancers", desc: "Load balancer" });
    v.push(Entry { key: "azure.app_gateway", path: "mxgraph.azure.application_gateway", desc: "Application Gateway" });
    v.push(Entry { key: "azure.firewall", path: "mxgraph.azure.firewall", desc: "Firewall" });
    v.push(Entry { key: "azure.cdn", path: "mxgraph.azure.cdn_profiles", desc: "CDN" });
    v.push(Entry { key: "azure.service_bus", path: "mxgraph.azure.azure_service_bus", desc: "Service Bus" });
    v.push(Entry { key: "azure.event_hub", path: "mxgraph.azure.event_hubs", desc: "Event Hubs" });
    v.push(Entry { key: "azure.key_vault", path: "mxgraph.azure.key_vaults", desc: "Key Vault" });
    v.push(Entry { key: "azure.active_directory", path: "mxgraph.azure.azure_active_directory", desc: "Active Directory" });
    v.push(Entry { key: "azure.monitor", path: "mxgraph.azure.monitor", desc: "Monitor" });
    assert(v@ =~= azure_spec());
    v
}

/// The gcp entries.
pub open spec fn gcp_spec() -> Seq<Entry> {
    seq![
        Entry { key: "gcp.compute", path: "mxgraph.gcp2.compute_engine", desc: "Compute Engine" },
        Entry { key: "gcp.gke", path: "mxgraph.gcp2.kubernetes_engine", desc: "Kubernetes Engine" },
        Entry { key: "gcp.functions", path: "mxgraph.gcp2.cloud_functions", desc: "Cloud Functions" },
        Entry { key: "gcp.run", path: "mxgraph.gcp2.cloud_run", desc: "Cloud Run" },
        Entry { key: "gcp.app_engine", path: "mxgraph.gcp2.app_engine", desc: "App Engine" },
        Entry { key: "gcp.storage", path: "mxgraph.gcp2.cloud_storage", desc: "Cloud Storage" },
        Entry { key: "gcp.sql", path: "mxgraph.gcp2.cloud_sql", desc: "Cloud SQL" },
        Entry { key: "gcp.spanner", path: "mxgraph.gcp2.cloud_spanner", desc: "Cloud Spanner" },
        Entry { key: "gcp.bigtable", path: "mxgraph.gcp2.cloud_bigtable", desc: "Cloud Bigtable" },
        Entry { key: "gcp.firestore", path: "mxgraph.gcp2.cloud_firestore", desc: "Firestore" },
        Entry { key: "gcp.bigquery", path: "mxgraph.gcp2.bigquery", desc: "BigQuery" },
        Entry { key: "gcp.pubsub", path: "mxgraph.gcp2.cloud_pubsub", desc: "Pub/Sub" },
        Entry { key: "gcp.dataflow", path: "mxgraph.gcp2.cloud_dataflow", desc: "Dataflow" },
        Entry { key: "gcp.load_balancing", path: "mxgraph.gcp2.cloud_load_balancing", desc: "Cloud Load Balancing" },
        Entry { key: "gcp.vpc", path: "mxgraph.gcp2.virtual_private_cloud", desc: "VPC" },
        Entry { key: "gcp.cdn", path: "mxgraph.gcp2.cloud_cdn", desc: "Cloud CDN" },
        Entry { key: "gcp.iam", path: "mxgraph.gcp2.cloud_iam", desc: "Cloud IAM" },
    ]
}

fn gcp_entries() -> (r: Vec<Entry>)
    ensures
        r@ == gcp_spec(),
{
    let mut v: Vec<Entry> = Vec::new();
    v.push(Entry { key: "gcp.compute", path: "mxgraph.gcp2.compute_engine", desc: "Compute Engine" });
    v.push(Entry { key: "gcp.gke", path: "mxgraph.gcp2.kubernetes_engine", desc: "Kubernetes Engine" });
    v.push(Entry { key: "gcp.functions", path: "mxgraph.gcp2.cloud_functions", desc: "Cloud Functions" });
    v.push(Entry { key: "gcp.run", path: "mxgraph.gcp2.cloud_run", desc: "Cloud Run" });
    v.push(Entry { key: "gcp.app_engine", path: "mxgraph.gcp2.app_engine", desc: "App Engine" });
    v.push(Entry { key: "gcp.storage", path: "mxgraph.gcp2.cloud_storage", desc: "Cloud Storage" });
    v.push(Entry { key: "gcp.sql", path: "mxgraph.gcp2.cloud_sql", desc: "Cloud SQL" });
    v.push(Entry { key: "gcp.spanner", path: "mxgraph.gcp2.cloud_spanner", desc: "Cloud Spanner" });
    v.push(Entry { key: "gcp.bigtable", path: "mxgraph.gcp2.cloud_bigtable", desc: "Cloud Bigtable" });
    v.push(Entry { key: "gcp.firestore", path: "mxgraph.gcp2.cloud_firestore", desc: "Firestore" });
    v.push(Entry { key: "gcp.bigquery", path: "mxgraph.gcp2.bigquery", desc: "BigQuery" });
    v.push(Entry { key: "gcp.pubsub", path: "mxgraph.gcp2.cloud_pubsub", desc: "Pub/Sub" });
    v.push(Entry { key: "gcp.dataflow", path: "mxgraph.gcp2.cloud_dataflow", desc: "Dataflow" });
    v.push(Entry { key: "gcp.load_balancing", path: "mxgraph.gcp2.cloud_load_balancing", desc: "Cloud Load Balancing" });
    v.push(Entry { key: "gcp.vpc", path: "mxgraph.gcp2.virtual_private_cloud", desc: "VPC" });
    v.push(Entry { key: "gcp.cdn", path: "mxgraph.gcp2.cloud_cdn", desc: "Cloud CDN" });
    v.push(Entry { key: "gcp.iam", path: "mxgraph.gcp2.cloud_iam", desc: "Cloud IAM" });
    assert(v@ =~= gcp_spec());
    v
}

/// The network entries.
pub open spec fn network_spec() -> Seq<Entry> {
    seq![
        Entry { key: "net.router", path: "mxgraph.cisco19.routers.router", desc: "Router" },
        Entry { key: "net.switch", path: "mxgraph.cisco19.switches.layer_3_switch", desc: "Layer 3 switch" },
        Entry { key: "net.switch_l2", path: "mxgraph.cisco19.switches.layer_2_switch", desc: "Layer 2 switch" },
        Entry { key: "net.firewall", path: "mxgraph.cisco19.security.firewall", desc: "Firewall" },
        Entry { key: "net.server", path: "mxgraph.cisco19.servers.standard_host", desc: "Server" },
        Entry { key: "net.load_balancer", path: "mxgraph.cisco19.misc.load_balancer", desc: "Load balancer" },
        Entry { key: "net.cloud", path: "mxgraph.cisco19.misc.cloud", desc: "Cloud" },
        Entry { key: "net.workstation", path: "mxgraph.cisco19.computers_and_peripherals.pc", desc: "Workstation / PC" },
        Entry { key: "net.laptop", path: "mxgraph.cisco19.computers_and_peripherals.laptop", desc: "Laptop" },
        Entry { key: "net.mobile", path: "mxgraph.cisco19.computers_and_peripherals.mobile_phone", desc: "Mobile phone" },
        Entry { key: "net.access_point", path: "mxgraph.cisco19.wireless.access_point", desc: "Wireless access point" },
        Entry { key: "net.wlc", path: "mxgraph.cisco19.wireless.wireless_lan_controller", desc: "WLAN controller" },
        Entry { key: "net.ids", path: "mxgraph.cisco19.security.ids", desc: "IDS" },
        Entry { key: "net.vpn_gateway", path: "mxgraph.cisco19.security.vpn_gateway", desc: "VPN gateway" },
        Entry { key: "net.rack", path: "mxgraph.rackGeneral.rackNumbering", desc: "Server rack" },
        Entry { key: "net.storage", path: "mxgraph.networks.storage", desc: "Storage array" },
        Entry { key: "net.database", path: "mxgraph.networks.database", desc: "Database server" },
    ]
}

fn network_entries() -> (r: Vec<Entry>)
    ensures
        r@ == network_spec(),
{
    let mut v: Vec<Entry> = Vec::new();
    v.push(Entry { key: "net.router", path: "mxgraph.cisco19.routers.router", desc: "Router" });
    v.push(Entry { key: "net.switch", path: "mxgraph.cisco19.switches.layer_3_switch", desc: "Layer 3 switch" });
    v.push(Entry { key: "net.switch_l2", path: "mxgraph.cisco19.switches.layer_2_switch", desc: "Layer 2 switch" });
    v.push(Entry { key: "net.firewall", path: "mxgraph.cisco19.security.firewall", desc: "Firewall" });
    v.push(Entry { key: "net.server", path: "mxgraph.cisco19.servers.standard_host", desc: "Server" });
    v.push(Entry { key: "net.load_balancer", path: "mxgraph.cisco19.misc.load_balancer", desc: "Load balancer" });
    v.push(Entry { key: "net.cloud", path: "mxgraph.cisco19.misc.cloud", desc: "Cloud" });
    v.push(Entry { key: "net.workstation", path: "mxgraph.cisco19.computers_and_peripherals.pc", desc: "Workstation / PC" });
    v.push(Entry { key: "net.laptop", path: "mxgraph.cisco19.computers_and_peripherals.laptop", desc: "Laptop" });
    v.push(Entry { key: "net.mobile", path: "mxgraph.cisco19.computers_and_peripherals.mobile_phone", desc: "Mobile phone" });
    v.push(Entry { key: "net.access_point", path: "mxgraph.cisco19.wireless.access_point", desc: "Wireless access point" });
    v.push(Entry { key: "net.wlc", path: "mxgraph.cisco19.wireless.wireless_lan_controller", desc: "WLAN controller" });
    v.push(Entry { key: "net.ids", path: "mxgraph.cisco19.security.ids", desc: "IDS" });
    v.push(Entry { key: "net.vpn_gateway", path: "mxgraph.cisco19.security.vpn_gateway", desc: "VPN gateway" });
    v.push(Entry { key: "net.rack", path: "mxgraph.rackGeneral.rackNumbering", desc: "Server rack" });
    v.push(Entry { key: "net.storage", path: "mxgraph.networks.storage", desc: "Storage array" });
    v.push(Entry { key: "net.database", path: "mxgraph.networks.database", desc: "Database server" });
    assert(v@ =~= network_spec());
    v
}

/// The kubernetes entries.
pub open spec fn kubernetes_spec() -> Seq<Entry> {
    seq![
        Entry { key: "k8s.pod", path: "mxgraph.kubernetes.pod", desc: "Pod" },
        Entry { key: "k8s.deploy", path: "mxgraph.kubernetes.deploy", desc: "Deployment" },
        Entry { key: "k8s.rs", path: "mxgraph.kubernetes.rs", desc: "ReplicaSet" },
        Entry { key: "k8s.ds", path: "mxgraph.kubernetes.ds", desc: "DaemonSet" },
        Entry { key: "k8s.sts", path: "mxgraph.kubernetes.sts", desc: "StatefulSet" },
        Entry { key: "k8s.job", path: "mxgraph.kubernetes.job", desc: "Job" },
        Entry { key: "k8s.cronjob", path: "mxgraph.kubernetes.cronjob", desc: "CronJob" },
        Entry { key: "k8s.svc", path: "mxgraph.kubernetes.svc", desc: "Service" },
        Entry { key: "k8s.ing", path: "mxgraph.kubernetes.ing", desc: "Ingress" },
        Entry { key: "k8s.ep", path: "mxgraph.kubernetes.ep", desc: "Endpoints" },
        Entry { key: "k8s.node", path: "mxgraph.kubernetes.node", desc: "Node" },
        Entry { key: "k8s.ns", path: "mxgraph.kubernetes.ns", desc: "Namespace" },
        Entry { key: "k8s.cm", path: "mxgraph.kubernetes.cm", desc: "ConfigMap" },
        Entry { key: "k8s.secret", path: "mxgraph.kubernetes.secret", desc: "Secret" },
        Entry { key: "k8s.pv", path: "mxgraph.kubernetes.pv", desc: "PersistentVolume" },
        Entry { key: "k8s.pvc", path: "mxgraph.kubernetes.pvc", desc: "PersistentVolumeClaim" },
        Entry { key: "k8s.sa", path: "mxgraph.kubernetes.sa", desc: "ServiceAccount" },
        Entry { key: "k8s.hpa", path: "mxgraph.kubernetes.hpa", desc: "HorizontalPodAutoscaler" },
    ]
}

fn kubernetes_entries() -> (r: Vec<Entry>)
    ensures
        r@ == kubernetes_spec(),
{
    let mut v: Vec<Entry> = Vec::new();
    v.push(Entry { key: "k8s.pod", path: "mxgraph.kubernetes.pod", desc: "Pod" });
    v.push(Entry { key: "k8s.deploy", path: "mxgraph.kubernetes.deploy", desc: "Deployment" });
    v.push(Entry { key: "k8s.rs", path: "mxgraph.kubernetes.rs", desc: "ReplicaSet" });
    v.push(Entry { key: "k8s.ds", path: "mxgraph.kubernetes.ds", desc: "DaemonSet" });
    v.push(Entry { key: "k8s.sts", path: "mxgraph.kubernetes.sts", desc: "StatefulSet" });
    v.push(Entry { key: "k8s.job", path: "mxgraph.kubernetes.job", desc: "Job" });
    v.push(Entry { key: "k8s.cronjob", path: "mxgraph.kubernetes.cronjob", desc: "CronJob" });
    v.push(Entry { key: "k8s.svc", path: "mxgraph.kubernetes.svc", desc: "Service" });
    v.push(Entry { key: "k8s.ing", path: "mxgraph.kubernetes.ing", desc: "Ingress" });
    v.push(Entry { key: "k8s.ep", path: "mxgraph.kubernetes.ep", desc: "Endpoints" });
    v.push(Entry { key: "k8s.node", path: "mxgraph.kubernetes.node", desc: "Node" });
    v.push(Entry { key: "k8s.ns", path: "mxgraph.kubernetes.ns", desc: "Namespace" });
    v.push(Entry { key: "k8s.cm", path: "mxgraph.kubernetes.cm", desc: "ConfigMap" });
    v.push(Entry { key: "k8s.secret", path: "mxgraph.kubernetes.secret", desc: "Secret" });
    v.push(Entry { key: "k8s.pv", path: "mxgraph.kubernetes.pv", desc: "PersistentVolume" });
    v.push(Entry { key: "k8s.pvc", path: "mxgraph.kubernetes.pvc", desc: "PersistentVolumeClaim" });
    v.push(Entry { key: "k8s.sa", path: "mxgraph.kubernetes.sa", desc: "ServiceAccount" });
    v.push(Entry { key: "k8s.hpa", path: "mxgraph.kubernetes.hpa", desc: "HorizontalPodAutoscaler" });
    assert(v@ =~= kubernetes_spec());
    v
}

/// The uml entries.
pub open spec fn uml_spec() -> Seq<Entry> {
    seq![
        Entry { key: "uml.actor", path: "umlActor", desc: "Actor (stick figure)" },
        Entry { key: "uml.lifeline", path: "umlLifeline", desc: "Sequence lifeline" },
        Entry { key: "uml.boundary", path: "umlBoundary", desc: "Boundary" },
        Entry { key: "uml.control", path: "umlControl", desc: "Control" },
        Entry { key: "uml.entity", path: "umlEntity", desc: "Entity" },
        Entry { key: "uml.frame", path: "umlFrame", desc: "Frame" },
        Entry { key: "uml.component", path: "component", desc: "Component" },
        Entry { key: "uml.module", path: "module", desc: "Module" },
        Entry { key: "uml.provided_interface", path: "lollipop", desc: "Provided interface (lollipop)" },
        Entry { key: "uml.required_interface", path: "requiredInterface", desc: "Required interface (socket)" },
        Entry { key: "uml.note", path: "note", desc: "Note" },
        Entry { key: "uml.package", path: "folder", desc: "Package / folder" },
        Entry { key: "uml.state_start", path: "startState", desc: "Initial state" },
        Entry { key: "uml.state_end", path: "endState", desc: "Final state" },
        Entry { key: "uml.assembly", path: "providedRequiredInterface", desc: "Assembly connector" },
    ]
}

fn uml_entries() -> (r: Vec<Entry>)
    ensures
        r@ == uml_spec(),
{
    let mut v: Vec<Entry> = Vec::new();
    v.push(Entry { key: "uml.actor", path: "umlActor", desc: "Actor (stick figure)" });
    v.push(Entry { key: "uml.lifeline", path: "umlLifeline", desc: "Sequence lifeline" });
    v.push(Entry { key: "uml.boundary", path: "umlBoundary", desc: "Boundary" });
    v.push(Entry { key: "uml.control", path: "umlControl", desc: "Control" });
    v.push(Entry { key: "uml.entity", path: "umlEntity", desc: "Entity" });
    v.push(Entry { key: "uml.frame", path: "umlFrame", desc: "Frame" });
    v.push(Entry { key: "uml.component", path: "component", desc: "Component" });
    v.push(Entry { key: "uml.module", path: "module", desc: "Module" });
    v.push(Entry { key: "uml.provided_interface", path: "lollipop", desc: "Provided interface (lollipop)" });
    v.push(Entry { key: "uml.required_interface", path: "requiredInterface", desc: "Required interface (socket)" });
    v.push(Entry { key: "uml.note", path: "note", desc: "Note" });
    v.push(Entry { key: "uml.package", path: "folder", desc: "Package / folder" });
    v.push(Entry { key: "uml.state_start", path: "startState", desc: "Initial state" });
    v.push(Entry { key: "uml.state_end", path: "endState", desc: "Final state" });
    v.push(Entry { key: "uml.assembly", path: "providedRequiredInterface", desc: "Assembly connector" });
    assert(v@ =~= uml_spec());
    v
}

/// The bpmn entries.
pub open spec fn bpmn_spec() -> Seq<Entry> {
    seq![
        Entry { key: "bpmn.task", path: "mxgraph.bpmn.task", desc: "Task" },
        Entry { key: "bpmn.gateway", path: "mxgraph.bpmn.gateway", desc: "Gateway" },
        Entry { key: "bpmn.gateway_parallel", path: "mxgraph.bpmn.gateway_parallel", desc: "Parallel gateway" },
        Entry { key: "bpmn.gateway_exclusive", path: "mxgraph.bpmn.gateway_exclusive", desc: "Exclusive gateway" },
        Entry { key: "bpmn.event", path: "mxgraph.bpmn.event", desc: "Event" },
        Entry { key: "bpmn.event_start", path: "mxgraph.bpmn.event_start", desc: "Start event" },
        Entry { key: "bpmn.event_end", path: "mxgraph.bpmn.event_end", desc: "End event" },
        Entry { key: "bpmn.subprocess", path: "mxgraph.bpmn.subProcessMarker", desc: "Sub-process" },
        Entry { key: "bpmn.data_object", path: "mxgraph.bpmn.data_object", desc: "Data object" },
        Entry { key: "bpmn.data_store", path: "mxgraph.bpmn.data_store", desc: "Data store" },
        Entry { key: "bpmn.message", path: "mxgraph.bpmn.message", desc: "Message" },
        Entry { key: "bpmn.timer", path: "mxgraph.bpmn.timer", desc: "Timer event" },
    ]
}

fn bpmn_entries() -> (r: Vec<Entry>)
    ensures
        r@ == bpmn_spec(),
{
    let mut v: Vec<Entry> = Vec::new();
    v.push(Entry { key: "bpmn.task", path: "mxgraph.bpmn.task", desc: "Task" });
    v.push(Entry { key: "bpmn.gateway", path: "mxgraph.bpmn.gateway", desc: "Gateway" });
    v.push(Entry { key: "bpmn.gateway_parallel", path: "mxgraph.bpmn.gateway_parallel", desc: "Parallel gateway" });
    v.push(Entry { key: "bpmn.gateway_exclusive", path: "mxgraph.bpmn.gateway_exclusive", desc: "Exclusive gateway" });
    v.push(Entry { key: "bpmn.event", path: "mxgraph.bpmn.event", desc: "Event" });
    v.push(Entry { key: "bpmn.event_start", path: "mxgraph.bpmn.event_start", desc: "Start event" });
    v.push(Entry { key: "bpmn.event_end", path: "mxgraph.bpmn.event_end", desc: "End event" });
    v.push(Entry { key: "bpmn.subprocess", path: "mxgraph.bpmn.subProcessMarker", desc: "Sub-process" });
    v.push(Entry { key: "bpmn.data_object", path: "mxgraph.bpmn.data_object", desc: "Data object" });
    v.push(Entry { key: "bpmn.data_store", path: "mxgraph.bpmn.data_store", desc: "Data store" });
    v.push(Entry { key: "bpmn.message", path: "mxgraph.bpmn.message", desc: "Message" });
    v.push(Entry { key: "bpmn.timer", path: "mxgraph.bpmn.timer", desc: "Timer event" });
    assert(v@ =~= bpmn_spec());
    v
}

/// The mockup entries.
pub open spec fn mockup_spec() -> Seq<Entry> {
    seq![
        Entry { key: "mockup.button", path: "mxgraph.mockup.forms.button", desc: "Button" },
        Entry { key: "mockup.textbox", path: "mxgraph.mockup.forms.textBox", desc: "Text box" },
        Entry { key: "mockup.textarea", path: "mxgraph.mockup.forms.textArea", desc: "Text area" },
        Entry { key: "mockup.checkbox", path: "mxgraph.mockup.forms.checkbox", desc: "Checkbox" },
        Entry { key: "mockup.radio", path: "mxgraph.mockup.forms.radioButton", desc: "Radio button" },
        Entry { key: "mockup.dropdown", path: "mxgraph.mockup.forms.comboBox", desc: "Dropdown / combo box" },
        Entry { key: "mockup.search", path: "mxgraph.mockup.forms.searchBox", desc: "Search box" },
        Entry { key: "mockup.slider", path: "mxgraph.mockup.forms.horizontalSlider", desc: "Slider" },
        Entry { key: "mockup.browser", path: "mxgraph.mockup.containers.browserWindow", desc: "Browser window" },
        Entry { key: "mockup.window", path: "mxgraph.mockup.containers.window", desc: "Window" },
        Entry { key: "mockup.image", path: "mxgraph.mockup.graphics.image", desc: "Image placeholder" },
        Entry { key: "mockup.video", path: "mxgraph.mockup.graphics.video", desc: "Video player" },
    ]
}

fn mockup_entries() -> (r: Vec<Entry>)
    ensures
        r@ == mockup_spec(),
{
    let mut v: Vec<Entry> = Vec::new();
    v.push(Entry { key: "mockup.button", path: "mxgraph.mockup.forms.button", desc: "Button" });
    v.push(Entry { key: "mockup.textbox", path: "mxgraph.mockup.forms.textBox", desc: "Text box" });
    v.push(Entry { key: "mockup.textarea", path: "mxgraph.mockup.forms.textArea", desc: "Text area" });
    v.push(Entry { key: "mockup.checkbox", path: "mxgraph.mockup.forms.checkbox", desc: "Checkbox" });
    v.push(Entry { key: "mockup.radio", path: "mxgraph.mockup.forms.radioButton", desc: "Radio button" });
    v.push(Entry { key: "mockup.dropdown", path: "mxgraph.mockup.forms.comboBox", desc: "Dropdown / combo box" });
    v.push(Entry { key: "mockup.search", path: "mxgraph.mockup.forms.searchBox", desc: "Search box" });
    v.push(Entry { key: "mockup.slider", path: "mxgraph.mockup.forms.horizontalSlider", desc: "Slider" });
    v.push(Entry { key: "mockup.browser", path: "mxgraph.mockup.containers.browserWindow", desc: "Browser window" });
    v.push(Entry { key: "mockup.window", path: "mxgraph.mockup.containers.window", desc: "Window" });
    v.push(Entry { key: "mockup.image", path: "mxgraph.mockup.graphics.image", desc: "Image placeholder" });
    v.push(Entry { key: "mockup.video", path: "mxgraph.mockup.graphics.video", desc: "Video player" });
    assert(v@ =~= mockup_spec());
    v
}

/// Every catalog entry, library by library.
pub open spec fn catalog_spec() -> Seq<Entry> {
    aws_spec() + azure_spec() + gcp_spec() + network_spec() + kubernetes_spec() + uml_spec() + bpmn_spec() + mockup_spec()
}

/// Every catalog entry, library by library.
pub fn catalog() -> (r: Vec<Entry>)
    ensures
        r@ == catalog_spec(),
{
    let mut v = aws_entries();
    let mut x = azure_entries();
    v.append(&mut x);
    let mut x = gcp_entries();
    v.append(&mut x);
    let mut x = network_entries();
    v.append(&mut x);
    let mut x = kubernetes_entries();
    v.append(&mut x);
    let mut x = uml_entries();
    v.append(&mut x);
    let mut x = bpmn_entries();
    v.append(&mut x);
    let mut x = mockup_entries();
    v.append(&mut x);
    v
}

} // verus!
